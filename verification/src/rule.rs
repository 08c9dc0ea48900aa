use vstd::prelude::*;
use vstd::arithmetic::div_mod::lemma_small_mod;
use crate::board::{cell_at, Board, BoundaryCondition};
use crate::error::OutOfBoundsSetError;
use crate::neighbourhood::{
    neighbour_coords, neighbour_coords_upto, neighbour_state_at, Neighbourhood, NeighbourhoodType,
    lemma_neighbour_coords_upto_len,
};
use crate::state::{AntDirection, CellColour, GameOfLifeState, LangtonsAntState, State};

verus! {

/// A pending single-cell write: a coordinate and the new state for it.
/// Deltas are produced by rules against one pre-step board snapshot and
/// applied in a later, separate phase; they are valid only against the
/// board they were computed from.
#[derive(Debug, Clone, Copy, PartialEq, Eq)]
pub struct Delta<S: State> {
    pub x: usize,
    pub y: usize,
    pub state: S,
}

impl<S: State> Delta<S> {
    /// A delta that writes `state` at `(x, y)`.
    pub fn new(x: usize, y: usize, state: S) -> (d: Delta<S>)
        ensures
            d == (Delta { x, y, state }),
    {
        Delta { x, y, state }
    }

    /// Apply the pending write to the board through `Board::set`: wrapped
    /// under a periodic boundary, rejected when out of range under a fixed
    /// boundary.
    pub fn apply(&self, board: &mut Board<S>) -> (r: Result<(), OutOfBoundsSetError>)
        requires
            old(board).wf(),
        ensures
            final(board).wf(),
            final(board).same_shape(old(board)),
            old(board).boundary_condition is Periodic ==> {
                &&& r is Ok
                &&& final(board).cells@ == old(board).cells@.update(
                    old(board).flat_idx(
                        self.x as int % old(board).width as int,
                        self.y as int % old(board).height as int,
                    ),
                    self.state,
                )
            },
            old(board).boundary_condition is Fixed && self.x < old(board).width
                && self.y < old(board).height ==> {
                &&& r is Ok
                &&& final(board).cells@ == old(board).cells@.update(
                    old(board).flat_idx(self.x as int, self.y as int),
                    self.state,
                )
            },
            old(board).boundary_condition is Fixed && !(self.x < old(board).width
                && self.y < old(board).height) ==> {
                &&& r == Err::<(), OutOfBoundsSetError>((OutOfBoundsSetError {
                    x: self.x,
                    y: self.y,
                    width: old(board).width,
                    height: old(board).height,
                }))
                &&& *final(board) == *old(board)
            },
    {
        board.set(self.x, self.y, self.state)
    }
}

/// The buffer after one pending write resolves through the boundary
/// policy, exactly as `Board::set` does: wrapped under a periodic
/// boundary, dropped when out of range under a fixed one.
pub open spec fn delta_effect<S: State>(
    width: int,
    height: int,
    periodic: bool,
    cells: Seq<S>,
    d: Delta<S>,
) -> Seq<S> {
    if periodic {
        cells.update(
            crate::board::row_major_idx(width, d.x as int % width, d.y as int % height),
            d.state,
        )
    } else if d.x < width && d.y < height {
        cells.update(crate::board::row_major_idx(width, d.x as int, d.y as int), d.state)
    } else {
        cells
    }
}

/// The buffer after a batch of pending writes is applied in order: each
/// write resolves through the boundary policy, failed writes are dropped,
/// and of two writes to the same cell the later one wins.
pub open spec fn apply_deltas_spec<S: State>(
    width: int,
    height: int,
    periodic: bool,
    cells: Seq<S>,
    ds: Seq<Delta<S>>,
) -> Seq<S>
    decreases ds.len(),
{
    if ds.len() == 0 {
        cells
    } else {
        apply_deltas_spec(
            width,
            height,
            periodic,
            delta_effect(width, height, periodic, cells, ds[0]),
            ds.drop_first(),
        )
    }
}

/// Applying a batch and then one more write is applying the extended
/// batch.
pub proof fn lemma_apply_deltas_push<S: State>(
    width: int,
    height: int,
    periodic: bool,
    cells: Seq<S>,
    ds: Seq<Delta<S>>,
    d: Delta<S>,
)
    ensures
        apply_deltas_spec(width, height, periodic, cells, ds.push(d)) == delta_effect(
            width,
            height,
            periodic,
            apply_deltas_spec(width, height, periodic, cells, ds),
            d,
        ),
    decreases ds.len(),
{
    if ds.len() == 0 {
        assert(ds.push(d).drop_first() =~= ds);
        assert(apply_deltas_spec(width, height, periodic, cells, ds) == cells);
        assert(apply_deltas_spec(
            width,
            height,
            periodic,
            delta_effect(width, height, periodic, cells, d),
            ds,
        ) == delta_effect(width, height, periodic, cells, d));
    } else {
        assert(ds.push(d)[0] == ds[0]);
        assert(ds.push(d).drop_first() =~= ds.drop_first().push(d));
        lemma_apply_deltas_push(
            width,
            height,
            periodic,
            delta_effect(width, height, periodic, cells, ds[0]),
            ds.drop_first(),
            d,
        );
        assert(apply_deltas_spec(width, height, periodic, cells, ds.push(d)) == apply_deltas_spec(
            width,
            height,
            periodic,
            delta_effect(width, height, periodic, cells, ds[0]),
            ds.drop_first().push(d),
        ));
        assert(apply_deltas_spec(width, height, periodic, cells, ds) == apply_deltas_spec(
            width,
            height,
            periodic,
            delta_effect(width, height, periodic, cells, ds[0]),
            ds.drop_first(),
        ));
    }
}

/// Two batches applied one after the other are their concatenation applied
/// once.
pub proof fn lemma_apply_deltas_concat<S: State>(
    width: int,
    height: int,
    periodic: bool,
    cells: Seq<S>,
    ds1: Seq<Delta<S>>,
    ds2: Seq<Delta<S>>,
)
    ensures
        apply_deltas_spec(width, height, periodic, cells, ds1 + ds2) == apply_deltas_spec(
            width,
            height,
            periodic,
            apply_deltas_spec(width, height, periodic, cells, ds1),
            ds2,
        ),
    decreases ds1.len(),
{
    if ds1.len() == 0 {
        assert(ds1 + ds2 =~= ds2);
        assert(apply_deltas_spec(width, height, periodic, cells, ds1) == cells);
    } else {
        assert((ds1 + ds2)[0] == ds1[0]);
        assert((ds1 + ds2).drop_first() =~= ds1.drop_first() + ds2);
        lemma_apply_deltas_concat(
            width,
            height,
            periodic,
            delta_effect(width, height, periodic, cells, ds1[0]),
            ds1.drop_first(),
            ds2,
        );
        assert(apply_deltas_spec(width, height, periodic, cells, ds1 + ds2) == apply_deltas_spec(
            width,
            height,
            periodic,
            delta_effect(width, height, periodic, cells, ds1[0]),
            ds1.drop_first() + ds2,
        ));
        assert(apply_deltas_spec(width, height, periodic, cells, ds1) == apply_deltas_spec(
            width,
            height,
            periodic,
            delta_effect(width, height, periodic, cells, ds1[0]),
            ds1.drop_first(),
        ));
    }
}

/// Apply a batch of pending writes to the board in order through
/// `Board::set`, dropping failed single-cell writes: the board becomes
/// exactly the fold `apply_deltas_spec` describes.
pub(crate) fn apply_deltas<S: State>(board: &mut Board<S>, deltas: &Vec<Delta<S>>)
    requires
        old(board).wf(),
    ensures
        final(board).wf(),
        final(board).same_shape(old(board)),
        final(board).cells@ == apply_deltas_spec(
            old(board).width as int,
            old(board).height as int,
            old(board).boundary_condition is Periodic,
            old(board).cells@,
            deltas@,
        ),
{
    let n = deltas.len();
    for k in 0..n
        invariant
            n == deltas@.len(),
            board.wf(),
            board.same_shape(old(board)),
            board.cells@ == apply_deltas_spec(
                old(board).width as int,
                old(board).height as int,
                old(board).boundary_condition is Periodic,
                old(board).cells@,
                deltas@.take(k as int),
            ),
    {
        proof {
            assert(deltas@.take(k + 1) =~= deltas@.take(k as int).push(deltas@[k as int]));
            lemma_apply_deltas_push(
                old(board).width as int,
                old(board).height as int,
                old(board).boundary_condition is Periodic,
                old(board).cells@,
                deltas@.take(k as int),
                deltas@[k as int],
            );
        }
        let _ = deltas[k].apply(board);
    }
    proof {
        assert(deltas@.take(n as int) =~= deltas@);
    }
}

/// A rule for updating cells: a pure function from a target coordinate and
/// a read-only board snapshot to a list of pending writes. A rule never
/// mutates the board directly, and evaluation has no write-visible side
/// effects, so many rules and many cells can be evaluated concurrently
/// against one consistent pre-step snapshot. A rule that must adapt over
/// time does so in the population layer, between steps, never inside
/// per-cell evaluation.
pub trait Rule<S: State>: Sized {
    /// What the rule decides at `coord` on a `width x height` grid with
    /// the given boundary policy and row-major cell buffer: the pending
    /// writes, or an out-of-bounds error when the rule dereferences a
    /// neighbour that does not exist. The default says the rule writes
    /// nothing; a rule that does real work overrides it.
    open spec fn delta_spec(
        &self,
        coord: (usize, usize),
        width: usize,
        height: usize,
        boundary: BoundaryCondition<S>,
        cells: Seq<S>,
    ) -> Result<Seq<Delta<S>>, OutOfBoundsSetError> {
        Ok(Seq::empty())
    }

    /// Evaluate the rule at `coord` against the board snapshot, returning
    /// exactly the writes `delta_spec` describes and leaving the rule
    /// itself unchanged.
    fn delta(&mut self, coord: (usize, usize), board: &Board<S>) -> (r: Result<
        Vec<Delta<S>>,
        OutOfBoundsSetError,
    >)
        requires
            board.wf(),
            coord.0 < board.width,
            coord.1 < board.height,
        ensures
            *final(self) == *old(self),
            r is Ok <==> old(self).delta_spec(
                coord, board.width, board.height, board.boundary_condition, board.cells@) is Ok,
            r is Ok ==> (r->Ok_0)@ == old(self).delta_spec(
                coord, board.width, board.height, board.boundary_condition, board.cells@)->Ok_0,
            r is Err ==> r->Err_0 == old(self).delta_spec(
                coord, board.width, board.height, board.boundary_condition, board.cells@)->Err_0,
    ;

    /// Evaluate the rule at `coord` and apply its pending writes to the
    /// board in list order, later writes to one cell overwriting earlier
    /// ones. Failed single-cell writes are dropped; a failed evaluation
    /// leaves the board unchanged. Returns the state of the target cell
    /// after the writes.
    fn apply(&mut self, coord: (usize, usize), board: &mut Board<S>) -> (r: Result<
        S,
        OutOfBoundsSetError,
    >)
        requires
            old(board).wf(),
            coord.0 < old(board).width,
            coord.1 < old(board).height,
        ensures
            final(board).wf(),
            final(board).same_shape(old(board)),
            r matches Ok(s) ==> s == final(board).cell(coord.0 as int, coord.1 as int),
            r is Err ==> *final(board) == *old(board),
    {
        let deltas = match self.delta(coord, board) {
            Ok(deltas) => deltas,
            Err(e) => {
                return Err(e);
            },
        };
        let n = deltas.len();
        for k in 0..n
            invariant
                n == deltas@.len(),
                board.wf(),
                board.same_shape(old(board)),
        {
            let _ = board.set(deltas[k].x, deltas[k].y, deltas[k].state);
        }
        Ok(board.get(coord.0, coord.1).unwrap())
    }
}

/// Count of `Some(Alive)` entries among the first `k` neighbourhood states.
pub open spec fn alive_count_upto(states: Seq<Option<GameOfLifeState>>, k: int) -> int
    decreases k,
{
    if k <= 0 {
        0
    } else {
        alive_count_upto(states, k - 1)
            + if states[k - 1] == Some(GameOfLifeState::Alive) { 1int } else { 0int }
    }
}

/// Count of `Some(Alive)` entries in a list of neighbourhood states.
pub open spec fn alive_count(states: Seq<Option<GameOfLifeState>>) -> int {
    alive_count_upto(states, states.len() as int)
}

proof fn lemma_alive_count_upto_nonneg(states: Seq<Option<GameOfLifeState>>, k: int)
    ensures
        alive_count_upto(states, k) >= 0,
    decreases k,
{
    if k > 0 {
        lemma_alive_count_upto_nonneg(states, k - 1);
    }
}

proof fn lemma_alive_count_upto_monotone(states: Seq<Option<GameOfLifeState>>, k1: int, k2: int)
    requires
        k1 <= k2,
    ensures
        alive_count_upto(states, k1) <= alive_count_upto(states, k2),
    decreases k2,
{
    if k1 < k2 && k2 > 0 {
        lemma_alive_count_upto_monotone(states, k1, k2 - 1);
    }
}

/// If some entry before `len` is alive, the total count is at least one.
proof fn lemma_alive_count_at_least_one(states: Seq<Option<GameOfLifeState>>, i: int)
    requires
        0 <= i < states.len(),
        states[i] == Some(GameOfLifeState::Alive),
    ensures
        alive_count(states) >= 1,
{
    lemma_alive_count_upto_nonneg(states, i);
    lemma_alive_count_upto_monotone(states, i + 1, states.len() as int);
}

/// The Moore radius-1 neighbourhood states around `(x, y)` on a grid with
/// the given dimensions, boundary policy and cell buffer, centre included,
/// each entry resolved through the boundary policy.
pub open spec fn gol_neighbour_states_at(
    width: usize,
    height: usize,
    boundary: BoundaryCondition<GameOfLifeState>,
    cells: Seq<GameOfLifeState>,
    x: int,
    y: int,
) -> Seq<Option<GameOfLifeState>> {
    neighbour_coords(
        NeighbourhoodType::Moore,
        1,
        width as int,
        height as int,
        boundary is Periodic,
        x,
        y,
    ).map_values(
        |e: Option<(usize, usize)>| neighbour_state_at(width, height, boundary, cells, e),
    )
}

/// The Moore radius-1 neighbourhood states around `(x, y)` on a board,
/// centre included.
pub open spec fn gol_neighbour_states(board: Board<GameOfLifeState>, x: int, y: int) -> Seq<
    Option<GameOfLifeState>,
> {
    gol_neighbour_states_at(board.width, board.height, board.boundary_condition, board.cells@, x, y)
}

/// Live Moore radius-1 neighbours of `(x, y)`, the centre cell excluded.
pub open spec fn gol_live_neighbours_at(
    width: usize,
    height: usize,
    boundary: BoundaryCondition<GameOfLifeState>,
    cells: Seq<GameOfLifeState>,
    x: int,
    y: int,
) -> int {
    alive_count(gol_neighbour_states_at(width, height, boundary, cells, x, y)) - if cell_at(
        width as int,
        cells,
        x,
        y,
    ) == GameOfLifeState::Alive {
        1int
    } else {
        0int
    }
}

/// The Game of Life table: a live cell survives with two or three live
/// neighbours, a dead cell is born with exactly three, everything else
/// dies or stays dead.
pub open spec fn gol_next_at(
    width: usize,
    height: usize,
    boundary: BoundaryCondition<GameOfLifeState>,
    cells: Seq<GameOfLifeState>,
    x: int,
    y: int,
) -> GameOfLifeState {
    let n = gol_live_neighbours_at(width, height, boundary, cells, x, y);
    match cell_at(width as int, cells, x, y) {
        GameOfLifeState::Alive => if n == 2 || n == 3 {
            GameOfLifeState::Alive
        } else {
            GameOfLifeState::Dead
        },
        GameOfLifeState::Dead => if n == 3 {
            GameOfLifeState::Alive
        } else {
            GameOfLifeState::Dead
        },
    }
}

/// The Game of Life table applied to a board's cell.
pub open spec fn gol_next(board: Board<GameOfLifeState>, x: int, y: int) -> GameOfLifeState {
    gol_next_at(board.width, board.height, board.boundary_condition, board.cells@, x, y)
}

/// The deterministic local reference rule: Conway's Game of Life over the
/// Moore radius-1 neighbourhood, emitting one delta per cell.
pub struct GameOfLifeRule;

impl GameOfLifeRule {
    /// The next state of the cell at `(x, y)` under the Game of Life table.
    pub fn next_state(board: &Board<GameOfLifeState>, x: usize, y: usize) -> (s: GameOfLifeState)
        requires
            board.wf(),
            x < board.width,
            y < board.height,
        ensures
            s == gol_next(*board, x as int, y as int),
    {
        let mut neighbourhood = Neighbourhood::new(NeighbourhoodType::Moore, 1);
        let curr_state = board.get(x, y).unwrap();
        proof {
            assert((2 * neighbourhood.radius + 1) * (2 * neighbourhood.radius + 1) == 9)
                by (nonlinear_arith)
                requires neighbourhood.radius == 1;
        }
        let neighbours = neighbourhood.get_neighbourhood_states(board, x, y);
        let ghost cs = neighbour_coords(
            NeighbourhoodType::Moore,
            1,
            board.width as int,
            board.height as int,
            board.boundary_condition is Periodic,
            x as int,
            y as int,
        );
        let ghost mapped = gol_neighbour_states(*board, x as int, y as int);
        proof {
            assert((2 * 1int + 1) * (2 * 1int + 1) == 9) by (nonlinear_arith);
            lemma_neighbour_coords_upto_len(
                NeighbourhoodType::Moore,
                1,
                board.width as int,
                board.height as int,
                board.boundary_condition is Periodic,
                x as int,
                y as int,
                9,
            );
        }
        let mut num_alive: u16 = 0;
        let n = neighbours.len();
        for k in 0..n
            invariant
                n <= 9,
                n == neighbours@.len(),
                n == mapped.len(),
                forall|i: int| 0 <= i < n ==> neighbours@[i] == mapped[i],
                num_alive == alive_count_upto(mapped, k as int),
                num_alive <= k,
        {
            match neighbours[k] {
                Some(GameOfLifeState::Alive) => {
                    num_alive = num_alive + 1;
                },
                _ => {},
            }
        }
        proof {
            if curr_state == GameOfLifeState::Alive {
                lemma_centre_entry_is_alive(*board, x, y);
            }
        }
        match curr_state {
            GameOfLifeState::Alive => {
                // Discount the centre cell itself from the neighbour count.
                let others = num_alive - 1;
                if others == 2 || others == 3 {
                    GameOfLifeState::Alive
                } else {
                    GameOfLifeState::Dead
                }
            },
            GameOfLifeState::Dead => {
                if num_alive == 3 {
                    GameOfLifeState::Alive
                } else {
                    GameOfLifeState::Dead
                }
            },
        }
    }
}

/// The centre cell appears in the Moore radius-1 list, so a live centre
/// contributes one to the raw alive count.
proof fn lemma_centre_entry_is_alive(board: Board<GameOfLifeState>, x: usize, y: usize)
    requires
        board.wf(),
        x < board.width,
        y < board.height,
        board.cell(x as int, y as int) == GameOfLifeState::Alive,
    ensures
        alive_count(gol_neighbour_states(board, x as int, y as int)) >= 1,
{
    let periodic = board.boundary_condition is Periodic;
    let w = board.width as int;
    let h = board.height as int;
    let nt = NeighbourhoodType::Moore;
    let xi = x as int;
    let yi = y as int;
    let cs = neighbour_coords(nt, 1, w, h, periodic, xi, yi);
    assert(neighbour_coords_upto(nt, 1, w, h, periodic, xi, yi, 0) =~= Seq::empty());
    assert(neighbour_coords_upto(nt, 1, w, h, periodic, xi, yi, 1)
        =~= neighbour_coords_upto(nt, 1, w, h, periodic, xi, yi, 0).push(
            crate::neighbourhood::resolve_offset(periodic, w, h, xi - 1, yi - 1)));
    assert(neighbour_coords_upto(nt, 1, w, h, periodic, xi, yi, 2)
        =~= neighbour_coords_upto(nt, 1, w, h, periodic, xi, yi, 1).push(
            crate::neighbourhood::resolve_offset(periodic, w, h, xi - 1, yi)));
    assert(neighbour_coords_upto(nt, 1, w, h, periodic, xi, yi, 3)
        =~= neighbour_coords_upto(nt, 1, w, h, periodic, xi, yi, 2).push(
            crate::neighbourhood::resolve_offset(periodic, w, h, xi - 1, yi + 1)));
    assert(neighbour_coords_upto(nt, 1, w, h, periodic, xi, yi, 4)
        =~= neighbour_coords_upto(nt, 1, w, h, periodic, xi, yi, 3).push(
            crate::neighbourhood::resolve_offset(periodic, w, h, xi, yi - 1)));
    assert(neighbour_coords_upto(nt, 1, w, h, periodic, xi, yi, 5)
        =~= neighbour_coords_upto(nt, 1, w, h, periodic, xi, yi, 4).push(
            crate::neighbourhood::resolve_offset(periodic, w, h, xi, yi)));
    assert(neighbour_coords_upto(nt, 1, w, h, periodic, xi, yi, 6)
        =~= neighbour_coords_upto(nt, 1, w, h, periodic, xi, yi, 5).push(
            crate::neighbourhood::resolve_offset(periodic, w, h, xi, yi + 1)));
    assert(neighbour_coords_upto(nt, 1, w, h, periodic, xi, yi, 7)
        =~= neighbour_coords_upto(nt, 1, w, h, periodic, xi, yi, 6).push(
            crate::neighbourhood::resolve_offset(periodic, w, h, xi + 1, yi - 1)));
    assert(neighbour_coords_upto(nt, 1, w, h, periodic, xi, yi, 8)
        =~= neighbour_coords_upto(nt, 1, w, h, periodic, xi, yi, 7).push(
            crate::neighbourhood::resolve_offset(periodic, w, h, xi + 1, yi)));
    assert(neighbour_coords_upto(nt, 1, w, h, periodic, xi, yi, 9)
        =~= neighbour_coords_upto(nt, 1, w, h, periodic, xi, yi, 8).push(
            crate::neighbourhood::resolve_offset(periodic, w, h, xi + 1, yi + 1)));
    assert((2 * 1int + 1) * (2 * 1int + 1) == 9) by (nonlinear_arith);
    assert(cs == neighbour_coords_upto(nt, 1, w, h, periodic, xi, yi, (2 * 1int + 1) * (2 * 1int + 1)));
    assert(cs =~= neighbour_coords_upto(nt, 1, w, h, periodic, xi, yi, 9));
    assert(cs.len() == 9);
    if periodic {
        lemma_small_mod(x as nat, board.width as nat);
        lemma_small_mod(y as nat, board.height as nat);
        assert(xi % w == xi && yi % h == yi);
    }
    assert(cs[4] == crate::neighbourhood::resolve_offset(periodic, w, h, xi, yi));
    assert(cs[4] == Some((x, y)));
    let mapped = gol_neighbour_states(board, x as int, y as int);
    assert(mapped[4] == Some(GameOfLifeState::Alive));
    lemma_alive_count_at_least_one(mapped, 4);
}

impl Rule<GameOfLifeState> for GameOfLifeRule {
    /// One delta per evaluation: the cell's next state under the table.
    open spec fn delta_spec(
        &self,
        coord: (usize, usize),
        width: usize,
        height: usize,
        boundary: BoundaryCondition<GameOfLifeState>,
        cells: Seq<GameOfLifeState>,
    ) -> Result<Seq<Delta<GameOfLifeState>>, OutOfBoundsSetError> {
        Ok(
            seq![
                Delta {
                    x: coord.0,
                    y: coord.1,
                    state: gol_next_at(width, height, boundary, cells, coord.0 as int, coord.1 as int),
                },
            ],
        )
    }

    fn delta(&mut self, coord: (usize, usize), board: &Board<GameOfLifeState>) -> (r: Result<
        Vec<Delta<GameOfLifeState>>,
        OutOfBoundsSetError,
    >) {
        let new_state = GameOfLifeRule::next_state(board, coord.0, coord.1);
        let mut deltas: Vec<Delta<GameOfLifeState>> = Vec::new();
        deltas.push(Delta::new(coord.0, coord.1, new_state));
        proof {
            assert(deltas@ =~= self.delta_spec(
                coord, board.width, board.height, board.boundary_condition, board.cells@)->Ok_0);
        }
        Ok(deltas)
    }
}

/// The turn table of Langton's Ant: turn right on a white cell, left on a
/// black one.
pub open spec fn ant_turn(colour: CellColour, d: AntDirection) -> AntDirection {
    match colour {
        CellColour::White => match d {
            AntDirection::Up => AntDirection::Right,
            AntDirection::Right => AntDirection::Down,
            AntDirection::Down => AntDirection::Left,
            AntDirection::Left => AntDirection::Up,
        },
        CellColour::Black => match d {
            AntDirection::Up => AntDirection::Left,
            AntDirection::Left => AntDirection::Down,
            AntDirection::Down => AntDirection::Right,
            AntDirection::Right => AntDirection::Up,
        },
    }
}

/// Flip a cell's background colour.
pub open spec fn flip_colour(colour: CellColour) -> CellColour {
    match colour {
        CellColour::White => CellColour::Black,
        CellColour::Black => CellColour::White,
    }
}

/// The destination cell one step in the given direction under a fixed
/// boundary, in the wrapping coordinate arithmetic of `usize`: a step up
/// from row zero or left from column zero lands on `usize::MAX`, which no
/// board contains, so the move is reported out of bounds.
pub open spec fn ant_dest_fixed(x: usize, y: usize, d: AntDirection) -> (usize, usize) {
    match d {
        AntDirection::Up => (x, if y == 0 { usize::MAX } else { (y - 1) as usize }),
        AntDirection::Right => ((x + 1) as usize, y),
        AntDirection::Down => (x, (y + 1) as usize),
        AntDirection::Left => (if x == 0 { usize::MAX } else { (x - 1) as usize }, y),
    }
}

/// The destination cell one step in the given direction on a periodic
/// `w x h` grid: a step off an edge wraps to the opposite edge.
pub open spec fn ant_dest_periodic(w: usize, h: usize, x: usize, y: usize, d: AntDirection) -> (
    usize,
    usize,
) {
    match d {
        AntDirection::Up => (x, if y == 0 { (h - 1) as usize } else { (y - 1) as usize }),
        AntDirection::Right => (if x + 1 == w { 0usize } else { (x + 1) as usize }, y),
        AntDirection::Down => (x, if y + 1 == h { 0usize } else { (y + 1) as usize }),
        AntDirection::Left => (if x == 0 { (w - 1) as usize } else { (x - 1) as usize }, y),
    }
}

/// What Langton's Ant does at `(x, y)`: without an ant, one delta keeping
/// the cell; with an ant, the background flips and the ant is cleared from
/// the source, and the ant is placed on the destination cell facing its new
/// direction. Under a periodic boundary the destination wraps around the
/// edges; under a fixed boundary a destination outside the grid is
/// reported out of bounds.
pub open spec fn ant_delta_at(
    width: usize,
    height: usize,
    boundary: BoundaryCondition<LangtonsAntState>,
    cells: Seq<LangtonsAntState>,
    x: usize,
    y: usize,
) -> Result<Seq<Delta<LangtonsAntState>>, OutOfBoundsSetError> {
    let cur = cell_at(width as int, cells, x as int, y as int);
    match cur.ant_direction {
        None => Ok(seq![Delta { x, y, state: cur }]),
        Some(d) => {
            let nd = ant_turn(cur.colour, d);
            if boundary is Periodic {
                let dest = ant_dest_periodic(width, height, x, y, nd);
                Ok(ant_move_deltas(width, cells, x, y, dest, nd))
            } else {
                let dest = ant_dest_fixed(x, y, nd);
                if dest.0 < width && dest.1 < height {
                    Ok(ant_move_deltas(width, cells, x, y, dest, nd))
                } else {
                    Err(OutOfBoundsSetError { x: dest.0, y: dest.1, width, height })
                }
            }
        },
    }
}

/// What Langton's Ant does at `(x, y)` on a board.
pub open spec fn ant_delta_spec(board: Board<LangtonsAntState>, x: usize, y: usize) -> Result<
    Seq<Delta<LangtonsAntState>>,
    OutOfBoundsSetError,
> {
    ant_delta_at(board.width, board.height, board.boundary_condition, board.cells@, x, y)
}

/// The two deltas of an ant move: the source cell with its background
/// flipped and the ant removed, then the destination cell with its own
/// background kept and the ant placed facing its new direction.
pub open spec fn ant_move_deltas(
    width: usize,
    cells: Seq<LangtonsAntState>,
    x: usize,
    y: usize,
    dest: (usize, usize),
    nd: AntDirection,
) -> Seq<Delta<LangtonsAntState>> {
    let cur = cell_at(width as int, cells, x as int, y as int);
    seq![
        Delta { x, y, state: LangtonsAntState { colour: flip_colour(cur.colour), ant_direction: None } },
        Delta {
            x: dest.0,
            y: dest.1,
            state: LangtonsAntState {
                colour: cell_at(width as int, cells, dest.0 as int, dest.1 as int).colour,
                ant_direction: Some(nd),
            },
        },
    ]
}

/// The agent-carrying reference rule: Langton's Ant. A cell's state bundles
/// a background colour and an optional ant with a facing direction.
pub struct LangtonsAntRule;

impl LangtonsAntRule {
    /// Evaluate Langton's Ant at `(x, y)`, returning exactly the deltas
    /// that `ant_delta_spec` describes.
    pub fn step(board: &Board<LangtonsAntState>, x: usize, y: usize) -> (r: Result<
        Vec<Delta<LangtonsAntState>>,
        OutOfBoundsSetError,
    >)
        requires
            board.wf(),
            x < board.width,
            y < board.height,
        ensures
            r is Ok <==> ant_delta_spec(*board, x, y) is Ok,
            r is Ok ==> (r->Ok_0)@ == ant_delta_spec(*board, x, y)->Ok_0,
            r is Err ==> r->Err_0 == ant_delta_spec(*board, x, y)->Err_0,
    {
        let old_state = board.get(x, y).unwrap();

        // Without an ant the cell keeps its state: a single no-op delta.
        let direction = match old_state.ant_direction {
            Some(d) => d,
            None => {
                let mut deltas: Vec<Delta<LangtonsAntState>> = Vec::new();
                deltas.push(Delta::new(x, y, old_state));
                proof {
                    assert(deltas@ =~= seq![Delta { x, y, state: old_state }]);
                }
                return Ok(deltas);
            },
        };

        let new_direction = match old_state.colour {
            CellColour::White => match direction {
                AntDirection::Up => AntDirection::Right,
                AntDirection::Right => AntDirection::Down,
                AntDirection::Down => AntDirection::Left,
                AntDirection::Left => AntDirection::Up,
            },
            CellColour::Black => match direction {
                AntDirection::Up => AntDirection::Left,
                AntDirection::Left => AntDirection::Down,
                AntDirection::Down => AntDirection::Right,
                AntDirection::Right => AntDirection::Up,
            },
        };

        // Flip the colour of the source cell and remove the ant from it.
        let flipped = match old_state.colour {
            CellColour::White => CellColour::Black,
            CellColour::Black => CellColour::White,
        };
        let updated_old_cell = LangtonsAntState { colour: flipped, ant_direction: None };

        let (nx, ny): (usize, usize) = match board.boundary_condition() {
            BoundaryCondition::Periodic => {
                // A step off an edge wraps to the opposite edge.
                let w = board.width();
                let h = board.height();
                match new_direction {
                    AntDirection::Up => (x, if y == 0 { h - 1 } else { y - 1 }),
                    AntDirection::Right => (if x + 1 == w { 0 } else { x + 1 }, y),
                    AntDirection::Down => (x, if y + 1 == h { 0 } else { y + 1 }),
                    AntDirection::Left => (if x == 0 { w - 1 } else { x - 1 }, y),
                }
            },
            BoundaryCondition::Fixed(_) => match new_direction {
                AntDirection::Up => (x, if y == 0 { usize::MAX } else { y - 1 }),
                AntDirection::Right => (x + 1, y),
                AntDirection::Down => (x, y + 1),
                AntDirection::Left => (if x == 0 { usize::MAX } else { x - 1 }, y),
            },
        };

        match board.get(nx, ny) {
            Some(next_cell) => {
                let mut deltas: Vec<Delta<LangtonsAntState>> = Vec::new();
                deltas.push(Delta::new(x, y, updated_old_cell));
                deltas.push(
                    Delta::new(
                        nx,
                        ny,
                        LangtonsAntState { colour: next_cell.colour, ant_direction: Some(new_direction) },
                    ),
                );
                proof {
                    assert(deltas@ =~= ant_delta_spec(*board, x, y)->Ok_0);
                }
                Ok(deltas)
            },
            None => Err(
                OutOfBoundsSetError { x: nx, y: ny, width: board.width(), height: board.height() },
            ),
        }
    }
}

impl Rule<LangtonsAntState> for LangtonsAntRule {
    /// Exactly the deltas of the ant's move, or the out-of-bounds error.
    open spec fn delta_spec(
        &self,
        coord: (usize, usize),
        width: usize,
        height: usize,
        boundary: BoundaryCondition<LangtonsAntState>,
        cells: Seq<LangtonsAntState>,
    ) -> Result<Seq<Delta<LangtonsAntState>>, OutOfBoundsSetError> {
        ant_delta_at(width, height, boundary, cells, coord.0, coord.1)
    }

    fn delta(&mut self, coord: (usize, usize), board: &Board<LangtonsAntState>) -> (r: Result<
        Vec<Delta<LangtonsAntState>>,
        OutOfBoundsSetError,
    >) {
        let r = LangtonsAntRule::step(board, coord.0, coord.1);
        proof {
            assert(self.delta_spec(
                coord, board.width, board.height, board.boundary_condition, board.cells@)
                == ant_delta_spec(*board, coord.0, coord.1));
        }
        r
    }
}

/// Law: evaluating the Game of Life rule is deterministic — its result is a
/// pure function of the centre coordinate and the pre-step board, so equal
/// boards give equal next states, and a run driven by this rule alone is
/// reproducible step for step.
pub proof fn lemma_game_of_life_deterministic(
    b1: Board<GameOfLifeState>,
    b2: Board<GameOfLifeState>,
    x: usize,
    y: usize,
)
    requires
        b1 == b2,
    ensures
        gol_next(b1, x as int, y as int) == gol_next(b2, x as int, y as int),
{
}

/// Law: evaluating Langton's Ant is deterministic — its deltas are a pure
/// function of the centre coordinate and the pre-step board, so equal
/// boards give equal delta lists.
pub proof fn lemma_langtons_ant_deterministic(
    b1: Board<LangtonsAntState>,
    b2: Board<LangtonsAntState>,
    x: usize,
    y: usize,
)
    requires
        b1 == b2,
    ensures
        ant_delta_spec(b1, x, y) == ant_delta_spec(b2, x, y),
{
}

} // verus!
