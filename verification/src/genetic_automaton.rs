use vstd::prelude::*;
use vstd::arithmetic::div_mod::lemma_fundamental_div_mod_converse;
use crate::board::{Board, BoundaryCondition};
use crate::error::OutOfBoundsSetError;
use crate::genotype::Genotype;
use crate::population::Population;
use crate::ratio::Ratio;
use crate::rule::{apply_deltas, apply_deltas_spec, Delta, Rule};
use crate::state::State;

verus! {

/// The pending writes one genotype emits over the first `k` coordinates of
/// a `width x height` grid in row-major order, every evaluation reading
/// the same pre-step buffer; an evaluation that fails for one cell
/// contributes nothing.
pub open spec fn lenient_rule_deltas_upto<S: State, G: Genotype<S>>(
    genotype: G,
    width: usize,
    height: usize,
    boundary: BoundaryCondition<S>,
    cells: Seq<S>,
    k: int,
) -> Seq<Delta<S>>
    decreases k,
{
    if k <= 0 {
        Seq::empty()
    } else {
        let acc = lenient_rule_deltas_upto(genotype, width, height, boundary, cells, k - 1);
        let x = ((k - 1) % (width as int)) as usize;
        let y = ((k - 1) / (width as int)) as usize;
        match genotype.delta_spec((x, y), width, height, boundary, cells) {
            Err(_) => acc,
            Ok(ds) => acc + ds,
        }
    }
}

/// The pending writes one genotype emits over every coordinate, failed
/// evaluations dropped.
pub open spec fn lenient_rule_deltas<S: State, G: Genotype<S>>(
    genotype: G,
    width: usize,
    height: usize,
    boundary: BoundaryCondition<S>,
    cells: Seq<S>,
) -> Seq<Delta<S>> {
    lenient_rule_deltas_upto(genotype, width, height, boundary, cells, width * height)
}

/// The pending writes of the first `i` genotypes of one genetic step.
pub open spec fn genetic_step_deltas_upto<S: State, G: Genotype<S>>(
    genotypes: Seq<G>,
    width: usize,
    height: usize,
    boundary: BoundaryCondition<S>,
    cells: Seq<S>,
    i: int,
) -> Seq<Delta<S>>
    decreases i,
{
    if i <= 0 {
        Seq::empty()
    } else {
        genetic_step_deltas_upto(genotypes, width, height, boundary, cells, i - 1)
            + lenient_rule_deltas(genotypes[i - 1], width, height, boundary, cells)
    }
}

/// The collected delta batch of one genetic step: every genotype in
/// population order over every coordinate in row-major order, all
/// evaluations reading the pre-step buffer, failed evaluations dropped.
pub open spec fn genetic_step_deltas<S: State, G: Genotype<S>>(
    genotypes: Seq<G>,
    width: usize,
    height: usize,
    boundary: BoundaryCondition<S>,
    cells: Seq<S>,
) -> Seq<Delta<S>> {
    genetic_step_deltas_upto(
        genotypes,
        width,
        height,
        boundary,
        cells,
        genotypes.len() as int,
    )
}

/// One genetic step's effect on a cell buffer: the whole batch — computed
/// against the pre-step buffer only — folded on in collection order, so no
/// evaluation sees another's write and the last write to a cell wins. The
/// step always completes.
pub open spec fn genetic_step_cells<S: State, G: Genotype<S>>(
    genotypes: Seq<G>,
    width: usize,
    height: usize,
    boundary: BoundaryCondition<S>,
    cells: Seq<S>,
) -> Seq<S> {
    apply_deltas_spec(
        width as int,
        height as int,
        boundary is Periodic,
        cells,
        genetic_step_deltas(genotypes, width, height, boundary, cells),
    )
}

/// Collect the pending writes of one genetic step: every genotype, in
/// population order, is evaluated as a rule against every board coordinate
/// in row-major order, reading only the pre-step board. An evaluation that
/// fails for one cell is dropped; the step goes on, and the result is
/// exactly the batch `genetic_step_deltas` describes.
fn collect_deltas_lenient<S: State, G: Genotype<S>>(genotypes: &mut Vec<G>, board: &Board<S>)
    -> (deltas: Vec<Delta<S>>)
    requires
        board.wf(),
    ensures
        final(genotypes)@ == old(genotypes)@,
        deltas@ == genetic_step_deltas(
            old(genotypes)@, board.width, board.height, board.boundary_condition, board.cells@),
{
    let mut deltas: Vec<Delta<S>> = Vec::new();
    let n = genotypes.len();
    let ghost bw = board.width;
    let ghost bh = board.height;
    let ghost bc = board.boundary_condition;
    let ghost bcells = board.cells@;
    for i in 0..n
        invariant
            n == genotypes@.len(),
            genotypes@ == old(genotypes)@,
            board.wf(),
            bw == board.width,
            bh == board.height,
            bc == board.boundary_condition,
            bcells == board.cells@,
            deltas@ == genetic_step_deltas_upto(old(genotypes)@, bw, bh, bc, bcells, i as int),
    {
        let ghost base = deltas@;
        let ghost mut seg: Seq<Delta<S>> = Seq::empty();
        proof {
            assert(0 * bw == 0) by (nonlinear_arith);
            assert(deltas@ =~= base + seg);
        }
        let h = board.height();
        for y in 0..h
            invariant
                n == genotypes@.len(),
                genotypes@ == old(genotypes)@,
                i < n,
                board.wf(),
                bw == board.width,
                bh == board.height,
                bc == board.boundary_condition,
                bcells == board.cells@,
                h == board.height,
                base == genetic_step_deltas_upto(old(genotypes)@, bw, bh, bc, bcells, i as int),
                deltas@ == base + seg,
                seg == lenient_rule_deltas_upto(
                    old(genotypes)@[i as int], bw, bh, bc, bcells, y * bw),
        {
            let w = board.width();
            for x in 0..w
                invariant
                    n == genotypes@.len(),
                    genotypes@ == old(genotypes)@,
                    i < n,
                    board.wf(),
                    bw == board.width,
                    bh == board.height,
                    bc == board.boundary_condition,
                    bcells == board.cells@,
                    h == board.height,
                    y < h,
                    w == board.width,
                    base == genetic_step_deltas_upto(
                        old(genotypes)@, bw, bh, bc, bcells, i as int),
                    deltas@ == base + seg,
                    seg == lenient_rule_deltas_upto(
                        old(genotypes)@[i as int], bw, bh, bc, bcells, y * bw + x),
            {
                let ghost genotypes_pre = genotypes@;
                let genotype = &mut genotypes[i];
                let evaluated = genotype.delta((x, y), board);
                proof {
                    assert(genotypes@ =~= genotypes_pre);
                    assert(0 <= y * bw + x && y * bw + x < bw * bh) by (nonlinear_arith)
                        requires x < bw && y < bh;
                    lemma_fundamental_div_mod_converse(y * bw + x, bw as int, y as int, x as int);
                }
                match evaluated {
                    Ok(mut ds) => {
                        let ghost emitted = ds@;
                        deltas.append(&mut ds);
                        proof {
                            seg = seg + emitted;
                            assert(deltas@ =~= base + seg);
                        }
                    },
                    Err(_) => {},
                }
            }
            proof {
                assert((y + 1) * bw == y * bw + bw) by (nonlinear_arith);
            }
        }
        proof {
            assert(bh * bw == bw * bh) by (nonlinear_arith);
        }
    }
    deltas
}

/// A genetic cellular automaton: a board, a population of genotypes acting
/// as rules, and the current time step.
///
/// Each step applies every genotype to every coordinate of the pre-step
/// board, collects the pending writes into one batch, applies the batch
/// sequentially (genotypes in population order, coordinates row-major
/// within a genotype, later writes to one cell overwriting earlier ones),
/// and then advances the population by one generation against the updated
/// board. Per-cell evaluation failures and failed generation advances are
/// tolerated: the step always completes.
pub struct GeneticAutomaton<S: State, G: Genotype<S>> {
    /// The board the automaton evolves.
    pub board: Board<S>,
    /// The population of genotypes applied to the board.
    pub population: Population<S, G>,
    /// The current time step.
    pub curr_time: usize,
}

impl<S: State, G: Genotype<S>> GeneticAutomaton<S, G> {
    /// The board is well-formed and the population's configuration is
    /// valid.
    pub open spec fn wf(&self) -> bool {
        &&& self.board.wf()
        &&& self.population.config_ok()
    }

    /// A genetic automaton over the given board and population, at time
    /// step zero.
    pub fn new(board: Board<S>, population: Population<S, G>) -> (a: GeneticAutomaton<S, G>)
        requires
            board.wf(),
            population.config_ok(),
        ensures
            a.wf(),
            a.board == board,
            a.population == population,
            a.curr_time == 0,
    {
        GeneticAutomaton { board, population, curr_time: 0 }
    }

    /// The current time step of the automaton.
    pub fn curr_time(&self) -> (t: usize)
        ensures
            t == self.curr_time,
    {
        self.curr_time
    }

    /// The board of the automaton.
    pub fn board(&self) -> (b: &Board<S>)
        ensures
            b == &self.board,
    {
        &self.board
    }

    /// The population of the automaton, mutably, for configuring it
    /// between runs.
    pub fn population(&mut self) -> (p: &mut Population<S, G>)
        ensures
            *p == old(self).population,
            final(self).population == *final(p),
            final(self).board == old(self).board,
            final(self).curr_time == old(self).curr_time,
    {
        &mut self.population
    }

    /// One step's rule work: collect every genotype's pending writes
    /// against the pre-step board, then apply them in collection order,
    /// dropping failed single-cell writes. The board becomes exactly what
    /// `genetic_step_cells` says; the step always completes.
    fn apply_rules(&mut self)
        requires
            old(self).wf(),
        ensures
            final(self).wf(),
            final(self).board.same_shape(&old(self).board),
            final(self).curr_time == old(self).curr_time,
            final(self).population.genotypes@ == old(self).population.genotypes@,
            final(self).population.selection_strategy == old(self).population.selection_strategy,
            final(self).population.mutation_rate == old(self).population.mutation_rate,
            final(self).board.cells@ == genetic_step_cells(
                old(self).population.genotypes@,
                old(self).board.width,
                old(self).board.height,
                old(self).board.boundary_condition,
                old(self).board.cells@,
            ),
    {
        let deltas = collect_deltas_lenient(&mut self.population.genotypes, &self.board);
        apply_deltas(&mut self.board, &deltas);
    }

    /// Advance one time step: apply the population's rules to the board,
    /// advance the population one generation against the updated board
    /// (a generation that cannot advance is tolerated and skipped), and
    /// increment the time.
    fn advance(&mut self, growth_rate: Ratio, death_rate: Ratio)
        requires
            old(self).wf(),
            old(self).curr_time < usize::MAX,
            growth_rate.valid(),
            death_rate.valid(),
        ensures
            final(self).wf(),
            final(self).board.same_shape(&old(self).board),
            final(self).curr_time == old(self).curr_time + 1,
            final(self).population.selection_strategy == old(self).population.selection_strategy,
            final(self).population.mutation_rate == old(self).population.mutation_rate,
            final(self).board.cells@ == genetic_step_cells(
                old(self).population.genotypes@,
                old(self).board.width,
                old(self).board.height,
                old(self).board.boundary_condition,
                old(self).board.cells@,
            ),
            old(self).population.genotypes@.len() == 0 ==> final(self).population.genotypes@.len()
                == 0 && final(self).board.cells@ == old(self).board.cells@,
    {
        proof {
            if old(self).population.genotypes@.len() == 0 {
                assert(genetic_step_deltas(
                    old(self).population.genotypes@,
                    old(self).board.width,
                    old(self).board.height,
                    old(self).board.boundary_condition,
                    old(self).board.cells@,
                ) =~= Seq::<Delta<S>>::empty());
            }
        }
        self.apply_rules();
        let _ = self.population.advance_generation(death_rate, growth_rate, &self.board);
        self.curr_time = self.curr_time + 1;
    }

    /// Run the automaton for the given number of generations with the
    /// given growth and death rates. Every step completes: per-cell
    /// evaluation failures and generations that cannot advance are
    /// tolerated. Each step's board transition is exactly
    /// `genetic_step_cells` of that step's population; with an empty
    /// population the board never changes and the population stays empty.
    pub fn evolve(&mut self, generations: usize, growth_rate: Ratio, death_rate: Ratio) -> (r:
        Result<(), OutOfBoundsSetError>)
        requires
            old(self).wf(),
            old(self).curr_time + generations <= usize::MAX,
            growth_rate.valid(),
            death_rate.valid(),
        ensures
            r is Ok,
            final(self).wf(),
            final(self).board.same_shape(&old(self).board),
            final(self).curr_time == old(self).curr_time + generations,
            final(self).population.selection_strategy == old(self).population.selection_strategy,
            final(self).population.mutation_rate == old(self).population.mutation_rate,
            old(self).population.genotypes@.len() == 0 ==> final(self).population.genotypes@.len()
                == 0 && final(self).board.cells@ == old(self).board.cells@,
    {
        for k in 0..generations
            invariant
                self.wf(),
                self.board.same_shape(&old(self).board),
                self.curr_time == old(self).curr_time + k,
                old(self).curr_time + generations <= usize::MAX,
                growth_rate.valid(),
                death_rate.valid(),
                self.population.selection_strategy == old(self).population.selection_strategy,
                self.population.mutation_rate == old(self).population.mutation_rate,
                old(self).population.genotypes@.len() == 0 ==> self.population.genotypes@.len()
                    == 0 && self.board.cells@ == old(self).board.cells@,
        {
            self.advance(growth_rate, death_rate);
        }
        Ok(())
    }
}

} // verus!
