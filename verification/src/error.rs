use vstd::prelude::*;

verus! {

/// Error returned when a write is attempted outside the grid extent of a
/// board with a fixed boundary condition. Carries the offending coordinate
/// and the board's dimensions.
#[derive(Clone, Copy, Debug, PartialEq, Eq, Structural)]
pub struct OutOfBoundsSetError {
    pub x: usize,
    pub y: usize,
    pub width: usize,
    pub height: usize,
}

/// Error returned by a population operation that could not proceed.
#[derive(Clone, Copy, Debug, PartialEq, Eq, Structural)]
pub enum PopulationError {
    /// The operation needs at least one individual, but the population is
    /// empty.
    EmptyPopulation,
    /// The index does not name an individual of the population.
    IndexOutOfBounds,
    /// The strategy's truncation pool rounds to zero individuals, so no
    /// parent can be drawn.
    EmptySelectionPool,
}

} // verus!
