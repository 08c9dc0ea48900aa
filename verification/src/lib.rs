//! A cellular-automaton engine: a bounded or wrapping grid of cell states
//! (`Board`), a radius- and shape-parameterised neighbour-resolution engine
//! with a geometry-keyed cache (`Neighbourhood`), a delta-based stepping
//! engine that evaluates rules against a fixed pre-step snapshot
//! (`Automaton`), and an evolutionary layer that breeds rule variants
//! against a fitness signal (`Genotype` / `Population` / `SelectionStrategy`).

pub mod automaton;
pub mod board;
pub mod error;
pub mod genetic_automaton;
pub mod genotype;
pub mod neighbourhood;
pub mod population;
pub mod ratio;
mod rng;
pub mod rule;
pub mod selection_strategy;
pub mod state;
