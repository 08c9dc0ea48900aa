use vstd::prelude::*;
use core::marker::PhantomData;
use rayon::iter::{IntoParallelRefIterator, ParallelIterator};
use crate::board::Board;
use crate::error::PopulationError;
use crate::genotype::Genotype;
use crate::ratio::{lemma_round_mul_le, lemma_round_mul_monotone, round_mul, round_mul_usize, Ratio};
use crate::selection_strategy::{beats, SelectionStrategy};
use crate::state::State;

verus! {

/// Relies on rayon's parallel iterator `map` / `collect`: evaluates every
/// genotype's `fitness` against the shared read-only board in parallel and
/// collects one score per genotype, in genotype order.
#[verifier::external_body]
fn par_fitness_scores<S: State, G: Genotype<S>>(genotypes: &Vec<G>, board: &Board<S>) -> (scores:
    Vec<u64>)
    ensures
        scores@.len() == genotypes@.len(),
{
    genotypes.par_iter().map(|genotype| genotype.fitness(board)).collect()
}

/// Count of unset flags from position `from` on.
spec fn count_unflagged(flags: Seq<bool>, from: int) -> int
    decreases flags.len() - from,
{
    if from < 0 || from >= flags.len() {
        0
    } else {
        (if flags[from] { 0int } else { 1int }) + count_unflagged(flags, from + 1)
    }
}

/// Appending a flag adds its contribution to every prefix count.
proof fn lemma_count_unflagged_push(flags: Seq<bool>, b: bool, from: int)
    requires
        0 <= from <= flags.len(),
    ensures
        count_unflagged(flags.push(b), from) == count_unflagged(flags, from) + (
        if b { 0int } else { 1int }),
    decreases flags.len() - from,
{
    if from < flags.len() {
        lemma_count_unflagged_push(flags, b, from + 1);
    } else {
        assert(count_unflagged(flags, from) == 0);
        assert(count_unflagged(flags.push(b), from + 1) == 0);
    }
}

proof fn lemma_count_unflagged_bounds(flags: Seq<bool>, from: int)
    requires
        0 <= from <= flags.len(),
    ensures
        0 <= count_unflagged(flags, from) <= flags.len() - from,
    decreases flags.len() - from,
{
    if from < flags.len() {
        lemma_count_unflagged_bounds(flags, from + 1);
    }
}

/// Setting an unset flag removes exactly one from every count that covers
/// it.
proof fn lemma_count_unflagged_update(flags: Seq<bool>, from: int, i: int)
    requires
        0 <= from <= flags.len(),
        0 <= i < flags.len(),
        !flags[i],
    ensures
        count_unflagged(flags.update(i, true), from) == count_unflagged(flags, from) - (
        if from <= i { 1int } else { 0int }),
    decreases flags.len() - from,
{
    if from < flags.len() {
        lemma_count_unflagged_update(flags, from + 1, i);
    }
}

/// The entries at unset-flag positions from `from` on, in order.
pub open spec fn filter_kept<G>(genotypes: Seq<G>, flags: Seq<bool>, from: int) -> Seq<G>
    decreases genotypes.len() - from,
{
    if from < 0 || from >= genotypes.len() {
        Seq::empty()
    } else if from < flags.len() && flags[from] {
        filter_kept(genotypes, flags, from + 1)
    } else {
        seq![genotypes[from]] + filter_kept(genotypes, flags, from + 1)
    }
}

/// A witnessed cull: `kept` is `genotypes` with the flagged positions
/// removed, in original order, and under the fitness assignment `scores`
/// every kept position outranks every flagged one in the canonical order
/// (fitness descending, ties toward the lower index).
pub open spec fn culled_by<G>(
    genotypes: Seq<G>,
    kept: Seq<G>,
    scores: Seq<u64>,
    flags: Seq<bool>,
) -> bool {
    &&& scores.len() == genotypes.len()
    &&& flags.len() == genotypes.len()
    &&& kept == filter_kept(genotypes, flags, 0)
    &&& forall|a: int, b: int| #![trigger flags[a], flags[b]]
        0 <= a < flags.len() && 0 <= b < flags.len() && flags[a] && !flags[b] ==> beats(
            scores, b, a)
}

/// A population of genotypes: an ordered collection of breedable
/// individuals, a selection strategy, and a mutation rate in `[0, 1]`
/// (enforced by the `Ratio` type at construction). The size varies over a
/// run through shrink and grow operations; duplicate genetic content is
/// permitted.
#[derive(Debug)]
pub struct Population<S: State, G: Genotype<S>> {
    /// The individuals, in insertion order.
    pub genotypes: Vec<G>,
    /// The policy for choosing parents and removal candidates.
    pub selection_strategy: SelectionStrategy,
    /// The per-parameter mutation probability applied to every new child.
    pub mutation_rate: Ratio,
    /// Carries the cell-state type the genotypes work over.
    pub marker: PhantomData<S>,
}

impl<S: State, G: Genotype<S>> Population<S, G> {
    /// The strategy's and the rate's parameters are valid fractions.
    pub open spec fn config_ok(&self) -> bool {
        &&& self.selection_strategy.valid()
        &&& self.mutation_rate.valid()
    }

    /// The strategy can draw parents from the current population.
    pub open spec fn pool_ok(&self) -> bool {
        self.selection_strategy.can_select(self.genotypes@.len() as int)
    }

    /// A population over the given genotypes, selection strategy, and
    /// mutation rate. A mutation rate outside `[0, 1]` is rejected earlier,
    /// when the `Ratio` is constructed.
    pub fn new(genotypes: Vec<G>, selection_strategy: SelectionStrategy, mutation_rate: Ratio)
        -> (p: Population<S, G>)
        requires
            selection_strategy.valid(),
            mutation_rate.valid(),
        ensures
            p.genotypes == genotypes,
            p.selection_strategy == selection_strategy,
            p.mutation_rate == mutation_rate,
            p.config_ok(),
    {
        Population { genotypes, selection_strategy, mutation_rate, marker: PhantomData }
    }

    /// The genotypes of the population, in order.
    pub fn genotypes(&self) -> (g: &Vec<G>)
        ensures
            g == &self.genotypes,
    {
        &self.genotypes
    }

    /// The fitness of every genotype against the same board snapshot,
    /// evaluated in parallel; the order matches the genotype order.
    pub fn fitness_scores(&self, board: &Board<S>) -> (scores: Vec<u64>)
        requires
            board.wf(),
        ensures
            scores@.len() == self.genotypes@.len(),
    {
        par_fitness_scores(&self.genotypes, board)
    }

    /// Remove and return the genotype at `index`, or report the index
    /// invalid, leaving the population unchanged.
    pub fn remove_genotype(&mut self, index: usize) -> (r: Result<G, PopulationError>)
        ensures
            final(self).selection_strategy == old(self).selection_strategy,
            final(self).mutation_rate == old(self).mutation_rate,
            index < old(self).genotypes@.len() ==> {
                &&& r matches Ok(g) && g == old(self).genotypes@[index as int]
                &&& final(self).genotypes@ == old(self).genotypes@.remove(index as int)
            },
            index >= old(self).genotypes@.len() ==> r
                == Err::<G, PopulationError>(PopulationError::IndexOutOfBounds) && *final(self)
                == *old(self),
    {
        if index >= self.genotypes.len() {
            return Err(PopulationError::IndexOutOfBounds);
        }
        Ok(self.genotypes.remove(index))
    }

    /// Append a genotype to the population.
    pub fn add_genotype(&mut self, genotype: G)
        ensures
            final(self).genotypes@ == old(self).genotypes@.push(genotype),
            final(self).selection_strategy == old(self).selection_strategy,
            final(self).mutation_rate == old(self).mutation_rate,
    {
        self.genotypes.push(genotype)
    }

    /// The number of genotypes in the population.
    pub fn len(&self) -> (n: usize)
        ensures
            n == self.genotypes@.len(),
    {
        self.genotypes.len()
    }

    /// Breed one child: score every genotype, let the selection strategy
    /// pick two parents, cross them over, mutate the child at the
    /// population's rate, and append it. Fails on an empty population, or
    /// when a truncation pool rounds to zero individuals.
    pub fn add_child(&mut self, board: &Board<S>) -> (r: Result<(), PopulationError>)
        requires
            board.wf(),
            old(self).config_ok(),
        ensures
            final(self).selection_strategy == old(self).selection_strategy,
            final(self).mutation_rate == old(self).mutation_rate,
            old(self).genotypes@.len() == 0 ==> r == Err::<(), PopulationError>(
                PopulationError::EmptyPopulation,
            ) && *final(self) == *old(self),
            old(self).genotypes@.len() >= 1 && !old(self).pool_ok() ==> r == Err::<(),
                PopulationError,
            >(PopulationError::EmptySelectionPool) && *final(self) == *old(self),
            old(self).genotypes@.len() >= 1 && old(self).pool_ok() ==> {
                &&& r is Ok
                &&& final(self).genotypes@.len() == old(self).genotypes@.len() + 1
                &&& final(self).genotypes@.subrange(0, old(self).genotypes@.len() as int)
                    == old(self).genotypes@
            },
    {
        let n = self.genotypes.len();
        if n == 0 {
            return Err(PopulationError::EmptyPopulation);
        }

        // Test the selection pool before drawing: a truncation pool that
        // rounds to zero individuals cannot supply parents.
        let pool_nonempty: bool = match self.selection_strategy {
            SelectionStrategy::Truncation(fraction) => round_mul_usize(n, fraction) >= 1,
            _ => true,
        };
        if !pool_nonempty {
            return Err(PopulationError::EmptySelectionPool);
        }

        let fitness_scores = self.fitness_scores(board);
        let (parent1_index, parent2_index) = self.selection_strategy.select_parents(
            &fitness_scores,
        );

        let parent1 = &self.genotypes[parent1_index];
        let parent2 = &self.genotypes[parent2_index];
        let mut child: G = parent1.crossover(parent2);
        child.mutate(self.mutation_rate);

        self.genotypes.push(child);
        proof {
            assert(final(self).genotypes@.subrange(0, old(self).genotypes@.len() as int)
                =~= old(self).genotypes@);
        }
        Ok(())
    }

    /// Cull the population so that `round(size x percentage)` of the
    /// current individuals survive: the selection strategy names the worst
    /// performers against the board and they are removed. Fails only on an
    /// empty population.
    pub fn shrink_population(&mut self, percentage: Ratio, board: &Board<S>) -> (r: Result<
        (),
        PopulationError,
    >)
        requires
            board.wf(),
            percentage.valid(),
        ensures
            final(self).selection_strategy == old(self).selection_strategy,
            final(self).mutation_rate == old(self).mutation_rate,
            old(self).genotypes@.len() == 0 ==> r == Err::<(), PopulationError>(
                PopulationError::EmptyPopulation,
            ) && *final(self) == *old(self),
            old(self).genotypes@.len() >= 1 ==> {
                &&& r is Ok
                &&& final(self).genotypes@.len() == round_mul(
                    old(self).genotypes@.len() as int,
                    percentage.num as int,
                    percentage.den as int,
                )
                &&& exists|scores: Seq<u64>, flags: Seq<bool>| culled_by(
                    old(self).genotypes@,
                    final(self).genotypes@,
                    scores,
                    flags,
                )
            },
    {
        let n = self.genotypes.len();
        if n == 0 {
            return Err(PopulationError::EmptyPopulation);
        }

        let fitness_scores = self.fitness_scores(board);
        let deaths = self.selection_strategy.select_deaths(&fitness_scores, percentage);
        let ghost keep = round_mul(n as int, percentage.num as int, percentage.den as int);
        proof {
            lemma_round_mul_le(n as int, percentage.num as int, percentage.den as int);
        }

        // Mark each doomed index once; the indices are distinct.
        let mut flags: Vec<bool> = Vec::new();
        for i in 0..n
            invariant
                flags@.len() == i,
                count_unflagged(flags@, 0) == i,
                forall|v: int| 0 <= v < i ==> !(#[trigger] flags@[v]),
        {
            proof {
                lemma_count_unflagged_push(flags@, false, 0);
            }
            flags.push(false);
        }
        let m = deaths.len();
        for k in 0..m
            invariant
                flags@.len() == n,
                m == deaths@.len(),
                m == n - keep,
                n == self.genotypes@.len(),
                forall|q: int| 0 <= q < m ==> (#[trigger] deaths@[q]) < n,
                forall|q1: int, q2: int| 0 <= q1 < q2 < m ==> deaths@[q1] != deaths@[q2],
                count_unflagged(flags@, 0) == n - k,
                forall|v: int| 0 <= v < n ==> ((#[trigger] flags@[v]) <==> deaths@.take(
                    k as int,
                ).contains(v as usize)),
        {
            let doomed = deaths[k];
            proof {
                if flags@[doomed as int] {
                    let q = choose|q: int|
                        0 <= q < k && #[trigger] deaths@.take(k as int)[q] == doomed;
                    assert(deaths@[q] == doomed);
                }
                lemma_count_unflagged_update(flags@, 0, doomed as int);
                assert(deaths@.take(k + 1)[k as int] == doomed);
                assert(deaths@.take(k + 1).contains(doomed));
                assert forall|v: int| 0 <= v < n && v != doomed as int
                    implies ((#[trigger] flags@.update(doomed as int, true)[v]) <==> deaths@.take(
                        k + 1,
                    ).contains(v as usize)) by {
                    assert(deaths@.take(k + 1) =~= deaths@.take(k as int).push(deaths@[k as int]));
                    if deaths@.take(k + 1).contains(v as usize) {
                        let q = choose|q: int| 0 <= q < k + 1 && #[trigger] deaths@.take(k + 1)[q] == v as usize;
                        if q < k {
                            assert(deaths@.take(k as int)[q] == v as usize);
                        }
                    }
                    if deaths@.take(k as int).contains(v as usize) {
                        let q = choose|q: int| 0 <= q < k && #[trigger] deaths@.take(k as int)[q] == v as usize;
                        assert(deaths@.take(k + 1)[q] == v as usize);
                    }
                }
            }
            flags[doomed] = true;
        }

        // Sweep from the top so earlier removals cannot shift the indices
        // still to be inspected.
        let ghost initial = old(self).genotypes@;
        proof {
            assert(self.genotypes@ =~= initial.take(n as int) + filter_kept(
                initial, flags@, n as int));
        }
        let mut i = n;
        while i > 0
            invariant
                i <= n,
                n == initial.len(),
                initial == old(self).genotypes@,
                flags@.len() == n,
                self.genotypes@.len() == i + count_unflagged(flags@, i as int),
                self.genotypes@ == initial.take(i as int) + filter_kept(initial, flags@, i as int),
                self.selection_strategy == old(self).selection_strategy,
                self.mutation_rate == old(self).mutation_rate,
            decreases i,
        {
            i = i - 1;
            proof {
                lemma_count_unflagged_bounds(flags@, i + 1);
                assert(count_unflagged(flags@, i as int) == (
                if flags@[i as int] { 0int } else { 1int }) + count_unflagged(flags@, i + 1));
            }
            if flags[i] {
                let _removed = self.genotypes.remove(i);
                proof {
                    assert(self.genotypes@ =~= initial.take(i as int) + filter_kept(
                        initial, flags@, i as int));
                }
            } else {
                proof {
                    assert(filter_kept(initial, flags@, i as int) == seq![initial[i as int]]
                        + filter_kept(initial, flags@, i + 1));
                    assert(self.genotypes@ =~= initial.take(i as int) + filter_kept(
                        initial, flags@, i as int));
                }
            }
        }
        proof {
            assert(self.genotypes@ =~= filter_kept(initial, flags@, 0));
            assert(deaths@.take(m as int) =~= deaths@);
            assert forall|a: int, b: int| #![trigger flags@[a], flags@[b]]
                0 <= a < flags@.len() && 0 <= b < flags@.len() && flags@[a] && !flags@[b]
                implies beats(fitness_scores@, b, a) by {
                assert(deaths@.contains(a as usize));
                assert(!deaths@.contains(b as usize));
            }
            assert(culled_by(initial, self.genotypes@, fitness_scores@, flags@));
        }
        Ok(())
    }

    /// Grow the population by breeding `round(size x percentage)` children
    /// through `add_child`. Fails on an empty population, or when the
    /// strategy's truncation pool rounds to zero individuals while children
    /// are owed.
    pub fn grow_population(&mut self, percentage: Ratio, board: &Board<S>) -> (r: Result<
        (),
        PopulationError,
    >)
        requires
            board.wf(),
            percentage.valid(),
            old(self).config_ok(),
        ensures
            final(self).selection_strategy == old(self).selection_strategy,
            final(self).mutation_rate == old(self).mutation_rate,
            old(self).genotypes@.len() == 0 ==> r == Err::<(), PopulationError>(
                PopulationError::EmptyPopulation,
            ) && *final(self) == *old(self),
            ({
                let n = old(self).genotypes@.len() as int;
                let grown = round_mul(n, percentage.num as int, percentage.den as int);
                &&& (n >= 1 && grown == 0 ==> r is Ok && final(self).genotypes@ == old(
                    self,
                ).genotypes@)
                &&& (n >= 1 && grown >= 1 && !old(self).pool_ok() ==> r == Err::<(),
                    PopulationError,
                >(PopulationError::EmptySelectionPool) && final(self).genotypes@ == old(
                    self,
                ).genotypes@)
                &&& (n >= 1 && grown >= 1 && old(self).pool_ok() ==> r is Ok
                    && final(self).genotypes@.len() == n + grown)
            }),
    {
        let n = self.genotypes.len();
        if n == 0 {
            return Err(PopulationError::EmptyPopulation);
        }

        let num_new_genotypes = round_mul_usize(n, percentage);
        for k in 0..num_new_genotypes
            invariant
                board.wf(),
                n >= 1,
                n == old(self).genotypes@.len(),
                num_new_genotypes == round_mul(n as int, percentage.num as int, percentage.den as int),
                k >= 1 ==> old(self).pool_ok(),
                k == 0 ==> self.genotypes@ == old(self).genotypes@,
                self.genotypes@.len() == n + k,
                self.config_ok(),
                self.selection_strategy == old(self).selection_strategy,
                self.mutation_rate == old(self).mutation_rate,
        {
            proof {
                if let SelectionStrategy::Truncation(fraction) = self.selection_strategy {
                    lemma_round_mul_monotone(
                        n as int,
                        n + k,
                        fraction.num as int,
                        fraction.den as int,
                    );
                }
            }
            match self.add_child(board) {
                Ok(()) => {},
                Err(e) => {
                    return Err(e);
                },
            }
        }
        Ok(())
    }

    /// Advance one generation: first cull so that `round(size x
    /// death_percentage)` survive, then breed `round(new size x
    /// growth_percentage)` children — mortality before reproduction, so
    /// children never compete with the generation being culled.
    pub fn advance_generation(
        &mut self,
        death_percentage: Ratio,
        growth_percentage: Ratio,
        board: &Board<S>,
    ) -> (r: Result<(), PopulationError>)
        requires
            board.wf(),
            death_percentage.valid(),
            growth_percentage.valid(),
            old(self).config_ok(),
        ensures
            final(self).selection_strategy == old(self).selection_strategy,
            final(self).mutation_rate == old(self).mutation_rate,
            old(self).genotypes@.len() == 0 ==> r == Err::<(), PopulationError>(
                PopulationError::EmptyPopulation,
            ) && *final(self) == *old(self),
            ({
                let survivors = round_mul(
                    old(self).genotypes@.len() as int,
                    death_percentage.num as int,
                    death_percentage.den as int,
                );
                let grown = round_mul(
                    survivors,
                    growth_percentage.num as int,
                    growth_percentage.den as int,
                );
                old(self).genotypes@.len() >= 1 ==> {
                    &&& (survivors == 0 ==> r == Err::<(), PopulationError>(
                        PopulationError::EmptyPopulation,
                    ))
                    &&& (survivors >= 1 && grown == 0 ==> r is Ok && final(self).genotypes@.len()
                        == survivors)
                    &&& (survivors >= 1 && grown >= 1 && old(self).selection_strategy.can_select(
                        survivors,
                    ) ==> r is Ok && final(self).genotypes@.len() == survivors + grown)
                    &&& (survivors >= 1 && grown >= 1 && !old(self).selection_strategy.can_select(
                        survivors,
                    ) ==> r == Err::<(), PopulationError>(PopulationError::EmptySelectionPool))
                }
            }),
    {
        match self.shrink_population(death_percentage, board) {
            Ok(()) => {},
            Err(e) => {
                return Err(e);
            },
        }
        match self.grow_population(growth_percentage, board) {
            Ok(()) => {},
            Err(e) => {
                return Err(e);
            },
        }
        Ok(())
    }
}

} // verus!
