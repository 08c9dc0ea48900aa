use vstd::prelude::*;
use vstd::arithmetic::div_mod::lemma_fundamental_div_mod_converse;
use crate::board::{Board, BoundaryCondition};
use crate::error::OutOfBoundsSetError;
use crate::rule::{apply_deltas, apply_deltas_spec, Delta, Rule};
use crate::state::State;

verus! {

/// The pending writes one rule emits over the first `k` coordinates of a
/// `width x height` grid in row-major order, every evaluation reading the
/// same pre-step buffer, or the first evaluation error.
pub open spec fn rule_deltas_upto<S: State, R: Rule<S>>(
    rule: R,
    width: usize,
    height: usize,
    boundary: BoundaryCondition<S>,
    cells: Seq<S>,
    k: int,
) -> Result<Seq<Delta<S>>, OutOfBoundsSetError>
    decreases k,
{
    if k <= 0 {
        Ok(Seq::empty())
    } else {
        match rule_deltas_upto(rule, width, height, boundary, cells, k - 1) {
            Err(e) => Err(e),
            Ok(acc) => {
                let x = ((k - 1) % (width as int)) as usize;
                let y = ((k - 1) / (width as int)) as usize;
                match rule.delta_spec((x, y), width, height, boundary, cells) {
                    Err(e) => Err(e),
                    Ok(ds) => Ok(acc + ds),
                }
            },
        }
    }
}

/// The pending writes one rule emits over every coordinate of the grid.
pub open spec fn rule_deltas<S: State, R: Rule<S>>(
    rule: R,
    width: usize,
    height: usize,
    boundary: BoundaryCondition<S>,
    cells: Seq<S>,
) -> Result<Seq<Delta<S>>, OutOfBoundsSetError> {
    rule_deltas_upto(rule, width, height, boundary, cells, width * height)
}

/// The pending writes of the first `i` rules of one step, each rule over
/// every coordinate, all reading the same pre-step buffer, or the first
/// evaluation error.
pub open spec fn step_deltas_upto<S: State, R: Rule<S>>(
    rules: Seq<R>,
    width: usize,
    height: usize,
    boundary: BoundaryCondition<S>,
    cells: Seq<S>,
    i: int,
) -> Result<Seq<Delta<S>>, OutOfBoundsSetError>
    decreases i,
{
    if i <= 0 {
        Ok(Seq::empty())
    } else {
        match step_deltas_upto(rules, width, height, boundary, cells, i - 1) {
            Err(e) => Err(e),
            Ok(acc) => match rule_deltas(rules[i - 1], width, height, boundary, cells) {
                Err(e) => Err(e),
                Ok(ds) => Ok(acc + ds),
            },
        }
    }
}

/// The collected delta batch of one full step: every rule in list order
/// over every coordinate in row-major order, all evaluations reading the
/// pre-step buffer, or the first evaluation error.
pub open spec fn step_deltas<S: State, R: Rule<S>>(
    rules: Seq<R>,
    width: usize,
    height: usize,
    boundary: BoundaryCondition<S>,
    cells: Seq<S>,
) -> Result<Seq<Delta<S>>, OutOfBoundsSetError> {
    step_deltas_upto(rules, width, height, boundary, cells, rules.len() as int)
}

/// One full automaton step over a cell buffer: with no rules the buffer is
/// unchanged; otherwise the step's whole delta batch — computed against
/// the pre-step buffer only — is folded onto it in collection order, so no
/// evaluation sees another's write and the last write to a cell wins.
pub open spec fn step_cells<S: State, R: Rule<S>>(
    rules: Seq<R>,
    width: usize,
    height: usize,
    boundary: BoundaryCondition<S>,
    cells: Seq<S>,
) -> Result<Seq<S>, OutOfBoundsSetError> {
    if rules.len() == 0 {
        Ok(cells)
    } else {
        match step_deltas(rules, width, height, boundary, cells) {
            Err(e) => Err(e),
            Ok(batch) => Ok(
                apply_deltas_spec(
                    width as int,
                    height as int,
                    boundary is Periodic,
                    cells,
                    batch,
                ),
            ),
        }
    }
}

/// `n` automaton steps over a cell buffer, stopping at the first step
/// whose rule evaluation fails.
pub open spec fn evolve_cells<S: State, R: Rule<S>>(
    rules: Seq<R>,
    width: usize,
    height: usize,
    boundary: BoundaryCondition<S>,
    cells: Seq<S>,
    n: int,
) -> Result<Seq<S>, OutOfBoundsSetError>
    decreases n,
{
    if n <= 0 {
        Ok(cells)
    } else {
        match step_cells(rules, width, height, boundary, cells) {
            Err(e) => Err(e),
            Ok(next) => evolve_cells(rules, width, height, boundary, next, n - 1),
        }
    }
}

/// A failed rule evaluation poisons every longer coordinate prefix.
proof fn lemma_rule_deltas_err_persists<S: State, R: Rule<S>>(
    rule: R,
    width: usize,
    height: usize,
    boundary: BoundaryCondition<S>,
    cells: Seq<S>,
    k1: int,
    k2: int,
)
    requires
        k1 <= k2,
        rule_deltas_upto(rule, width, height, boundary, cells, k1) is Err,
    ensures
        rule_deltas_upto(rule, width, height, boundary, cells, k2) == rule_deltas_upto(
            rule, width, height, boundary, cells, k1),
    decreases k2,
{
    if k1 < k2 && k2 > 0 {
        lemma_rule_deltas_err_persists(rule, width, height, boundary, cells, k1, k2 - 1);
    }
}

/// A failed rule poisons every longer rule prefix of the step.
proof fn lemma_step_deltas_err_persists<S: State, R: Rule<S>>(
    rules: Seq<R>,
    width: usize,
    height: usize,
    boundary: BoundaryCondition<S>,
    cells: Seq<S>,
    i1: int,
    i2: int,
)
    requires
        i1 <= i2,
        step_deltas_upto(rules, width, height, boundary, cells, i1) is Err,
    ensures
        step_deltas_upto(rules, width, height, boundary, cells, i2) == step_deltas_upto(
            rules, width, height, boundary, cells, i1),
    decreases i2,
{
    if i1 < i2 && i2 > 0 {
        lemma_step_deltas_err_persists(rules, width, height, boundary, cells, i1, i2 - 1);
    }
}

/// A successful run extended by one successful step is the longer run.
proof fn lemma_evolve_cells_extend<S: State, R: Rule<S>>(
    rules: Seq<R>,
    width: usize,
    height: usize,
    boundary: BoundaryCondition<S>,
    cells: Seq<S>,
    k: int,
    mid: Seq<S>,
    next: Seq<S>,
)
    requires
        k >= 0,
        evolve_cells(rules, width, height, boundary, cells, k) == Ok::<Seq<S>, OutOfBoundsSetError>(mid),
        step_cells(rules, width, height, boundary, mid) == Ok::<Seq<S>, OutOfBoundsSetError>(next),
    ensures
        evolve_cells(rules, width, height, boundary, cells, k + 1) == Ok::<
            Seq<S>,
            OutOfBoundsSetError,
        >(next),
    decreases k,
{
    if k == 0 {
        assert(evolve_cells(rules, width, height, boundary, next, 0) == Ok::<
            Seq<S>,
            OutOfBoundsSetError,
        >(next));
    } else {
        let first = step_cells(rules, width, height, boundary, cells)->Ok_0;
        lemma_evolve_cells_extend(rules, width, height, boundary, first, k - 1, mid, next);
    }
}

/// Law: the automaton is deterministic. The board `evolve` produces is the
/// value of the pure function `evolve_cells` of the initial buffer, the
/// rule list, the geometry and the step count alone, so two runs over
/// equal initial boards with equal rule lists yield bit-for-bit equal
/// boards.
pub proof fn lemma_evolve_deterministic<S: State, R: Rule<S>>(
    rules: Seq<R>,
    width: usize,
    height: usize,
    boundary: BoundaryCondition<S>,
    cells: Seq<S>,
    n: int,
    out1: Seq<S>,
    out2: Seq<S>,
)
    requires
        evolve_cells(rules, width, height, boundary, cells, n) == Ok::<Seq<S>, OutOfBoundsSetError>(out1),
        evolve_cells(rules, width, height, boundary, cells, n) == Ok::<Seq<S>, OutOfBoundsSetError>(out2),
    ensures
        out1 == out2,
{
}

/// Collect the pending writes of one step: every rule, in list order, is
/// evaluated against every board coordinate in row-major order, reading
/// only the pre-step board; the result is exactly the batch `step_deltas`
/// describes. The first failed evaluation aborts the step.
fn collect_deltas<S: State, R: Rule<S>>(rules: &mut Vec<R>, board: &Board<S>) -> (r: Result<
    Vec<Delta<S>>,
    OutOfBoundsSetError,
>)
    requires
        board.wf(),
    ensures
        final(rules)@ == old(rules)@,
        r matches Ok(ds) ==> step_deltas(
            old(rules)@, board.width, board.height, board.boundary_condition, board.cells@)
            == Ok::<Seq<Delta<S>>, OutOfBoundsSetError>(ds@),
        r matches Err(e) ==> step_deltas(
            old(rules)@, board.width, board.height, board.boundary_condition, board.cells@)
            == Err::<Seq<Delta<S>>, OutOfBoundsSetError>(e),
{
    let mut deltas: Vec<Delta<S>> = Vec::new();
    let n = rules.len();
    let ghost bw = board.width;
    let ghost bh = board.height;
    let ghost bc = board.boundary_condition;
    let ghost bcells = board.cells@;
    for i in 0..n
        invariant
            n == rules@.len(),
            rules@ == old(rules)@,
            board.wf(),
            bw == board.width,
            bh == board.height,
            bc == board.boundary_condition,
            bcells == board.cells@,
            step_deltas_upto(old(rules)@, bw, bh, bc, bcells, i as int) == Ok::<
                Seq<Delta<S>>,
                OutOfBoundsSetError,
            >(deltas@),
    {
        let ghost base = deltas@;
        let ghost mut seg: Seq<Delta<S>> = Seq::empty();
        proof {
            assert(0 * bw == 0) by (nonlinear_arith);
            assert(deltas@ =~= base + seg);
        }
        let h = board.height();
        for y in 0..h
            invariant
                n == rules@.len(),
                rules@ == old(rules)@,
                i < n,
                board.wf(),
                bw == board.width,
                bh == board.height,
                bc == board.boundary_condition,
                bcells == board.cells@,
                h == board.height,
                step_deltas_upto(old(rules)@, bw, bh, bc, bcells, i as int) == Ok::<
                    Seq<Delta<S>>,
                    OutOfBoundsSetError,
                >(base),
                deltas@ == base + seg,
                rule_deltas_upto(old(rules)@[i as int], bw, bh, bc, bcells, y * bw) == Ok::<
                    Seq<Delta<S>>,
                    OutOfBoundsSetError,
                >(seg),
        {
            let w = board.width();
            for x in 0..w
                invariant
                    n == rules@.len(),
                    rules@ == old(rules)@,
                    i < n,
                    board.wf(),
                    bw == board.width,
                    bh == board.height,
                    bc == board.boundary_condition,
                    bcells == board.cells@,
                    h == board.height,
                    y < h,
                    w == board.width,
                    step_deltas_upto(old(rules)@, bw, bh, bc, bcells, i as int) == Ok::<
                        Seq<Delta<S>>,
                        OutOfBoundsSetError,
                    >(base),
                    deltas@ == base + seg,
                    rule_deltas_upto(old(rules)@[i as int], bw, bh, bc, bcells, y * bw + x) == Ok::<
                        Seq<Delta<S>>,
                        OutOfBoundsSetError,
                    >(seg),
            {
                let ghost rules_pre = rules@;
                let rule = &mut rules[i];
                let evaluated = rule.delta((x, y), board);
                proof {
                    assert(rules@ =~= rules_pre);
                    assert(0 <= y * bw + x && y * bw + x < bw * bh) by (nonlinear_arith)
                        requires x < bw && y < bh;
                    lemma_fundamental_div_mod_converse(
                        y * bw + x, bw as int, y as int, x as int);
                }
                match evaluated {
                    Ok(mut ds) => {
                        let ghost emitted = ds@;
                        deltas.append(&mut ds);
                        proof {
                            seg = seg + emitted;
                            assert(deltas@ =~= base + seg);
                        }
                    },
                    Err(e) => {
                        proof {
                            let ghost ri = old(rules)@[i as int];
                            assert(rule_deltas_upto(ri, bw, bh, bc, bcells, y * bw + x + 1)
                                == Err::<Seq<Delta<S>>, OutOfBoundsSetError>(e));
                            assert(bw * bh >= y * bw + x + 1) by (nonlinear_arith)
                                requires x < bw && y < bh;
                            lemma_rule_deltas_err_persists(
                                ri, bw, bh, bc, bcells, y * bw + x + 1, bw * bh);
                            assert(step_deltas_upto(old(rules)@, bw, bh, bc, bcells, i + 1)
                                == Err::<Seq<Delta<S>>, OutOfBoundsSetError>(e));
                            lemma_step_deltas_err_persists(
                                old(rules)@, bw, bh, bc, bcells, i + 1, n as int);
                        }
                        return Err(e);
                    },
                }
            }
            proof {
                assert((y + 1) * bw == y * bw + bw) by (nonlinear_arith);
            }
        }
        proof {
            assert(bh * bw == bw * bh) by (nonlinear_arith);
        }
    }
    Ok(deltas)
}

/// A cellular automaton: a board of cells, an ordered list of rules, and
/// the current time step.
///
/// One step evaluates every rule against every coordinate of the pre-step
/// board (no evaluation sees another's write), collects all pending writes
/// into one batch, and then applies the batch sequentially through
/// `Board::set`: rules in list order, coordinates in row-major order within
/// a rule, so a later delta targeting the same cell overwrites an earlier
/// one. Failed single-cell writes are dropped and the step completes; what
/// each step does to the cells is exactly the function `step_cells`.
pub struct Automaton<S: State, R: Rule<S>> {
    /// The board the automaton evolves.
    pub board: Board<S>,
    /// The rules, applied in the order they are stored.
    pub rules: Vec<R>,
    /// The current time step.
    pub curr_time: usize,
}

impl<S: State, R: Rule<S>> Automaton<S, R> {
    /// The automaton's board is well-formed.
    pub open spec fn wf(&self) -> bool {
        self.board.wf()
    }

    /// What one step of this automaton does to a cell buffer.
    pub open spec fn spec_step(&self, cells: Seq<S>) -> Result<Seq<S>, OutOfBoundsSetError> {
        step_cells(self.rules@, self.board.width, self.board.height, self.board.boundary_condition, cells)
    }

    /// What `n` steps of this automaton do to a cell buffer.
    pub open spec fn spec_evolve(&self, cells: Seq<S>, n: int) -> Result<Seq<S>, OutOfBoundsSetError> {
        evolve_cells(
            self.rules@,
            self.board.width,
            self.board.height,
            self.board.boundary_condition,
            cells,
            n,
        )
    }

    /// An automaton over the given board and rules, at time step zero.
    pub fn new(board: Board<S>, rules: Vec<R>) -> (a: Automaton<S, R>)
        requires
            board.wf(),
        ensures
            a.wf(),
            a.board == board,
            a.rules == rules,
            a.curr_time == 0,
    {
        Automaton { board, rules, curr_time: 0 }
    }

    /// The current time step of the automaton.
    pub fn curr_time(&self) -> (t: usize)
        ensures
            t == self.curr_time,
    {
        self.curr_time
    }

    /// The board of the automaton.
    pub fn board(&self) -> (b: &Board<S>)
        ensures
            b == &self.board,
    {
        &self.board
    }

    /// The rules of the automaton, in application order.
    pub fn rules(&self) -> (r: &Vec<R>)
        ensures
            r == &self.rules,
    {
        &self.rules
    }

    /// Append a rule; it is applied after the rules already stored.
    pub fn add_rule(&mut self, rule: R)
        ensures
            final(self).rules@ == old(self).rules@.push(rule),
            final(self).board == old(self).board,
            final(self).curr_time == old(self).curr_time,
    {
        self.rules.push(rule);
    }

    /// One step's rule work: collect every rule's pending writes against
    /// the pre-step board, then apply them in collection order, dropping
    /// failed single-cell writes. The board becomes exactly what
    /// `step_cells` says; a failed evaluation aborts the step before any
    /// write.
    fn apply_rules(&mut self) -> (r: Result<(), OutOfBoundsSetError>)
        requires
            old(self).wf(),
        ensures
            final(self).wf(),
            final(self).board.same_shape(&old(self).board),
            final(self).curr_time == old(self).curr_time,
            final(self).rules@ == old(self).rules@,
            r is Ok <==> old(self).spec_step(old(self).board.cells@) is Ok,
            r is Ok ==> final(self).board.cells@ == old(self).spec_step(old(self).board.cells@)->Ok_0,
            r is Err ==> final(self).board == old(self).board && old(self).spec_step(
                old(self).board.cells@) == Err::<Seq<S>, OutOfBoundsSetError>(r->Err_0),
    {
        if self.rules.len() == 0 {
            return Ok(());
        }

        let deltas = match collect_deltas(&mut self.rules, &self.board) {
            Ok(deltas) => deltas,
            Err(e) => {
                return Err(e);
            },
        };
        apply_deltas(&mut self.board, &deltas);
        Ok(())
    }

    /// Advance the automaton by one time step.
    fn advance(&mut self) -> (r: Result<(), OutOfBoundsSetError>)
        requires
            old(self).wf(),
            old(self).curr_time < usize::MAX,
        ensures
            final(self).wf(),
            final(self).board.same_shape(&old(self).board),
            final(self).rules@ == old(self).rules@,
            r is Ok <==> old(self).spec_step(old(self).board.cells@) is Ok,
            r is Ok ==> final(self).curr_time == old(self).curr_time + 1 && final(
                self).board.cells@ == old(self).spec_step(old(self).board.cells@)->Ok_0,
            r is Err ==> final(self).curr_time == old(self).curr_time && final(self).board == old(
                self).board && old(self).spec_step(old(self).board.cells@) == Err::<
                Seq<S>,
                OutOfBoundsSetError,
            >(r->Err_0),
    {
        match self.apply_rules() {
            Ok(()) => {},
            Err(e) => {
                return Err(e);
            },
        }
        self.curr_time = self.curr_time + 1;
        Ok(())
    }

    /// Advance the automaton by the given number of time steps, applying
    /// the rules in stored order at each step: the board becomes exactly
    /// the `steps`-fold iteration of `step_cells` on the initial cells.
    /// The run stops at the first step whose rule evaluation fails; the
    /// time step then counts the completed steps, the board holds their
    /// result, and the reported error is the failing step's.
    pub fn evolve(&mut self, steps: usize) -> (r: Result<(), OutOfBoundsSetError>)
        requires
            old(self).wf(),
            old(self).curr_time + steps <= usize::MAX,
        ensures
            final(self).wf(),
            final(self).board.same_shape(&old(self).board),
            final(self).rules@ == old(self).rules@,
            r is Ok ==> final(self).curr_time == old(self).curr_time + steps && old(
                self).spec_evolve(old(self).board.cells@, steps as int) == Ok::<
                Seq<S>,
                OutOfBoundsSetError,
            >(final(self).board.cells@),
            r is Err ==> {
                let done = final(self).curr_time - old(self).curr_time;
                &&& old(self).curr_time <= final(self).curr_time < old(self).curr_time + steps
                &&& old(self).spec_evolve(old(self).board.cells@, done) == Ok::<
                    Seq<S>,
                    OutOfBoundsSetError,
                >(final(self).board.cells@)
                &&& old(self).spec_step(final(self).board.cells@) == Err::<
                    Seq<S>,
                    OutOfBoundsSetError,
                >(r->Err_0)
            },
    {
        for k in 0..steps
            invariant
                self.wf(),
                self.board.same_shape(&old(self).board),
                self.rules@ == old(self).rules@,
                self.curr_time == old(self).curr_time + k,
                old(self).curr_time + steps <= usize::MAX,
                old(self).spec_evolve(old(self).board.cells@, k as int) == Ok::<
                    Seq<S>,
                    OutOfBoundsSetError,
                >(self.board.cells@),
        {
            let ghost mid = self.board.cells@;
            match self.advance() {
                Ok(()) => {
                    proof {
                        lemma_evolve_cells_extend(
                            old(self).rules@,
                            old(self).board.width,
                            old(self).board.height,
                            old(self).board.boundary_condition,
                            old(self).board.cells@,
                            k as int,
                            mid,
                            self.board.cells@,
                        );
                    }
                },
                Err(e) => {
                    return Err(e);
                },
            }
        }
        Ok(())
    }
}

} // verus!
