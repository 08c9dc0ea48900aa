use vstd::prelude::*;
use crate::board::Board;
use crate::ratio::Ratio;
use crate::rule::Rule;
use crate::state::State;

verus! {

/// A rule that can be bred: a `Rule` augmented with the three genetic
/// operators. Implementations supply their own combination and mutation
/// policies; the population layer treats a genotype as a breedable
/// individual scored against a board.
pub trait Genotype<S: State>: Rule<S> + Sized + Send + Sync {
    /// Combine the genetic material of `self` and `other` into a child
    /// according to the rule's own crossover policy.
    fn crossover(&self, other: &Self) -> Self;

    /// Perturb each of the rule's parameters with per-parameter probability
    /// `mutation_rate`.
    fn mutate(&mut self, mutation_rate: Ratio)
        requires
            mutation_rate.valid(),
    ;

    /// Score how well this rule performs against the board; higher is
    /// better. Evaluation is read-only.
    fn fitness(&self, board: &Board<S>) -> u64
        requires
            board.wf(),
    ;
}

} // verus!
