use vstd::prelude::*;
use vstd::arithmetic::div_mod::{
    lemma_div_pos_is_pos, lemma_fundamental_div_mod, lemma_fundamental_div_mod_converse,
    lemma_mod_division_less_than_divisor, lemma_multiply_divide_lt,
};
use crate::board::{row_major_idx, Board, BoundaryCondition};
use crate::state::State;

verus! {

/// The shape of a neighbourhood: the Manhattan ball (`VonNeumann`) or the
/// full square (`Moore`) of the configured radius. `VonNeumann` excludes
/// the centre cell; `Moore` enumerates it as one of its entries, and rules
/// that must not count the centre discount it themselves.
#[derive(Clone, Copy, Debug, Eq, PartialEq)]
pub enum NeighbourhoodType {
    VonNeumann,
    Moore,
}

/// Absolute value of an integer.
pub open spec fn abs_int(v: int) -> int {
    if v >= 0 {
        v
    } else {
        -v
    }
}

/// Whether the offset `(di, dj)` belongs to a neighbourhood of the given
/// shape and radius.
pub open spec fn included_offset(nt: NeighbourhoodType, radius: int, di: int, dj: int) -> bool {
    match nt {
        NeighbourhoodType::VonNeumann => 0 < abs_int(di) + abs_int(dj) <= radius,
        NeighbourhoodType::Moore => true,
    }
}

/// How one absolute coordinate pair `(i, j)` (possibly out of range)
/// resolves on a `w x h` grid: wrapped under a periodic boundary, present
/// only if in range under a fixed boundary.
pub open spec fn resolve_offset(periodic: bool, w: int, h: int, i: int, j: int) -> Option<(usize, usize)> {
    if periodic {
        Some(((i % w) as usize, (j % h) as usize))
    } else if 0 <= i < w && 0 <= j < h {
        Some((i as usize, j as usize))
    } else {
        None
    }
}

/// The neighbourhood coordinate list restricted to the first `k` cells of
/// the `(2 radius + 1)^2` offset square, enumerated with the x-offset
/// ascending in the outer position and the y-offset ascending in the inner
/// position.
pub open spec fn neighbour_coords_upto(
    nt: NeighbourhoodType,
    radius: int,
    w: int,
    h: int,
    periodic: bool,
    x: int,
    y: int,
    k: int,
) -> Seq<Option<(usize, usize)>>
    decreases k,
{
    if k <= 0 {
        Seq::empty()
    } else {
        let side = 2 * radius + 1;
        let di = (k - 1) / side - radius;
        let dj = (k - 1) % side - radius;
        let prev = neighbour_coords_upto(nt, radius, w, h, periodic, x, y, k - 1);
        if included_offset(nt, radius, di, dj) {
            prev.push(resolve_offset(periodic, w, h, x + di, y + dj))
        } else {
            prev
        }
    }
}

/// The ordered neighbourhood coordinate list for a centre `(x, y)` on a
/// `w x h` grid: one entry per offset of the shape, in a fixed nested-loop
/// order (outer x-offset ascending, inner y-offset ascending), each entry
/// resolved through the boundary policy.
pub open spec fn neighbour_coords(
    nt: NeighbourhoodType,
    radius: int,
    w: int,
    h: int,
    periodic: bool,
    x: int,
    y: int,
) -> Seq<Option<(usize, usize)>> {
    neighbour_coords_upto(nt, radius, w, h, periodic, x, y, (2 * radius + 1) * (2 * radius + 1))
}

/// The producing offsets of a neighbourhood, restricted to the first `k`
/// cells of the offset square: the `(dx, dy)` that generates each kept
/// entry, in the same order as `neighbour_coords_upto` keeps them.
pub open spec fn neighbour_offsets_upto(nt: NeighbourhoodType, radius: int, k: int) -> Seq<
    (isize, isize),
>
    decreases k,
{
    if k <= 0 {
        Seq::empty()
    } else {
        let side = 2 * radius + 1;
        let di = (k - 1) / side - radius;
        let dj = (k - 1) % side - radius;
        let prev = neighbour_offsets_upto(nt, radius, k - 1);
        if included_offset(nt, radius, di, dj) {
            prev.push((di as isize, dj as isize))
        } else {
            prev
        }
    }
}

/// The ordered producing offsets of a neighbourhood: the `(dx, dy)` that
/// generates each entry of `neighbour_coords`, in the same order.
pub open spec fn neighbour_offsets(nt: NeighbourhoodType, radius: int) -> Seq<(isize, isize)> {
    neighbour_offsets_upto(nt, radius, (2 * radius + 1) * (2 * radius + 1))
}

/// The offsets list and the coordinate list walk the offset square in
/// step: equal lengths, every offset bounded by the radius, and every
/// coordinate entry equal to its offset resolved from the centre.
pub proof fn lemma_coords_offsets_aligned(
    nt: NeighbourhoodType,
    radius: int,
    w: int,
    h: int,
    periodic: bool,
    x: int,
    y: int,
    k: int,
)
    requires
        0 <= radius <= isize::MAX,
        k <= (2 * radius + 1) * (2 * radius + 1),
    ensures
        neighbour_offsets_upto(nt, radius, k).len() == neighbour_coords_upto(
            nt, radius, w, h, periodic, x, y, k).len(),
        forall|i: int| 0 <= i < neighbour_offsets_upto(nt, radius, k).len() ==> {
            let o = #[trigger] neighbour_offsets_upto(nt, radius, k)[i];
            &&& -radius <= o.0 <= radius
            &&& -radius <= o.1 <= radius
            &&& neighbour_coords_upto(nt, radius, w, h, periodic, x, y, k)[i] == resolve_offset(
                periodic, w, h, x + o.0, y + o.1)
        },
    decreases k,
{
    if k > 0 {
        lemma_coords_offsets_aligned(nt, radius, w, h, periodic, x, y, k - 1);
        let side = 2 * radius + 1;
        lemma_div_pos_is_pos(k - 1, side);
        lemma_multiply_divide_lt(k - 1, side, side);
        lemma_mod_division_less_than_divisor(k - 1, side);
    }
}

/// The state a resolved neighbourhood entry reads from a `width x height`
/// grid with the given boundary and cell buffer: a wrapped or in-range
/// coordinate reads its cell; an absent entry reads the fixed boundary's
/// default state.
pub open spec fn neighbour_state_at<S: State>(
    width: usize,
    height: usize,
    boundary: BoundaryCondition<S>,
    cells: Seq<S>,
    entry: Option<(usize, usize)>,
) -> Option<S> {
    match entry {
        Some((nx, ny)) => if nx < width && ny < height {
            Some(crate::board::cell_at(width as int, cells, nx as int, ny as int))
        } else {
            None
        },
        None => match boundary {
            BoundaryCondition::Fixed(v) => Some(v),
            BoundaryCondition::Periodic => None,
        },
    }
}

/// The state a resolved neighbourhood entry reads from a board.
pub open spec fn neighbour_state_of<S: State>(board: Board<S>, entry: Option<(usize, usize)>) -> Option<S> {
    neighbour_state_at(board.width, board.height, board.boundary_condition, board.cells@, entry)
}

/// Euclidean remainder of `t - r` modulo `m`, computed without signed
/// arithmetic.
fn wrap_sub(t: u128, r: u128, m: usize) -> (v: usize)
    requires
        m >= 1,
    ensures
        v < m,
        v as int == (t - r) % (m as int),
{
    let m128: u128 = m as u128;
    if t >= r {
        let v128: u128 = (t - r) % m128;
        proof {
            assert((t - r) as int % (m128 as int) == (t - r) % (m as int));
        }
        v128 as usize
    } else {
        let n: u128 = r - t - 1;
        let k: u128 = n % m128;
        proof {
            let ni = n as int;
            let mi = m as int;
            lemma_fundamental_div_mod(ni, mi);
            // t - r == -(n + 1) == (-(n / m) - 1) * m + (m - 1 - n % m)
            assert(t - r == (-(ni / mi) - 1) * mi + (mi - 1 - ni % mi)) by (nonlinear_arith)
                requires
                    ni == mi * (ni / mi) + ni % mi,
                    t - r == -(ni + 1);
            lemma_fundamental_div_mod_converse(t - r, mi, -(ni / mi) - 1, mi - 1 - ni % mi);
        }
        m - 1 - (k as usize)
    }
}

/// One entry of the neighbourhood list: the offset square position `(a, b)`
/// (so the absolute coordinate is `(x + a - radius, y + b - radius)`)
/// resolved through the boundary policy.
fn resolve_entry(
    periodic: bool,
    w: usize,
    h: usize,
    x: usize,
    y: usize,
    a: usize,
    b: usize,
    radius: usize,
) -> (e: Option<(usize, usize)>)
    requires
        w >= 1,
        h >= 1,
    ensures
        e == resolve_offset(periodic, w as int, h as int, x + a - radius, y + b - radius),
{
    let t: u128 = x as u128 + a as u128;
    let u: u128 = y as u128 + b as u128;
    let r128: u128 = radius as u128;
    if periodic {
        let nx = wrap_sub(t, r128, w);
        let ny = wrap_sub(u, r128, h);
        Some((nx, ny))
    } else {
        if t >= r128 && u >= r128 && t - r128 < w as u128 && u - r128 < h as u128 {
            Some(((t - r128) as usize, (u - r128) as usize))
        } else {
            None
        }
    }
}

/// Copy a coordinate list element by element.
fn copy_coord_list(v: &Vec<Option<(usize, usize)>>) -> (r: Vec<Option<(usize, usize)>>)
    ensures
        r@ == v@,
{
    let mut r: Vec<Option<(usize, usize)>> = Vec::new();
    let n = v.len();
    for k in 0..n
        invariant
            n == v@.len(),
            r@ == v@.take(k as int),
    {
        r.push(v[k]);
        proof {
            assert(v@.take(k + 1) == v@.take(k as int).push(v@[k as int]));
        }
    }
    proof {
        assert(v@.take(n as int) == v@);
    }
    r
}

/// Compute the neighbourhood coordinate list for centre `(x, y)` by walking
/// the offset square in its fixed nested-loop order.
fn compute_neighbour_coords(
    nt: NeighbourhoodType,
    radius: usize,
    w: usize,
    h: usize,
    periodic: bool,
    x: usize,
    y: usize,
) -> (out: Vec<Option<(usize, usize)>>)
    requires
        w >= 1,
        h >= 1,
        x < w,
        y < h,
        (2 * radius + 1) * (2 * radius + 1) <= usize::MAX,
    ensures
        out@ == neighbour_coords(nt, radius as int, w as int, h as int, periodic, x as int, y as int),
{
    proof {
        assert(2 * radius + 1 <= (2 * radius + 1) * (2 * radius + 1)) by (nonlinear_arith)
            requires radius >= 0;
    }
    let side: usize = 2 * radius + 1;
    let mut out: Vec<Option<(usize, usize)>> = Vec::new();
    proof {
        assert(0 * side == 0) by (nonlinear_arith);
    }
    for a in 0..side
        invariant
            side == 2 * radius + 1,
            side * side <= usize::MAX,
            w >= 1,
            h >= 1,
            x < w,
            y < h,
            out@ == neighbour_coords_upto(
                nt, radius as int, w as int, h as int, periodic, x as int, y as int, a * side),
    {
        for b in 0..side
            invariant
                side == 2 * radius + 1,
                side * side <= usize::MAX,
                w >= 1,
                h >= 1,
                x < w,
                y < h,
                a < side,
                out@ == neighbour_coords_upto(
                    nt, radius as int, w as int, h as int, periodic, x as int, y as int,
                    a * side + b),
        {
            let keep: bool = match nt {
                NeighbourhoodType::Moore => true,
                NeighbourhoodType::VonNeumann => {
                    let man_a: usize = if a >= radius { a - radius } else { radius - a };
                    let man_b: usize = if b >= radius { b - radius } else { radius - b };
                    (man_a > 0 || man_b > 0) && man_a <= radius && man_b <= radius - man_a
                }
            };
            proof {
                assert(0 <= a * side + b && a * side + b < side * side) by (nonlinear_arith)
                    requires a < side && b < side;
                lemma_fundamental_div_mod_converse((a * side + b) as int, side as int, a as int, b as int);
            }
            if keep {
                let entry = resolve_entry(periodic, w, h, x, y, a, b, radius);
                out.push(entry);
            }
        }
        proof {
            assert((a + 1) * side == a * side + side) by (nonlinear_arith);
        }
    }
    proof {
        assert(side * side == (2 * radius + 1) * (2 * radius + 1));
    }
    out
}

/// A prefix of the offset square yields at most one entry per offset.
pub proof fn lemma_neighbour_coords_upto_len(
    nt: NeighbourhoodType,
    radius: int,
    w: int,
    h: int,
    periodic: bool,
    x: int,
    y: int,
    k: int,
)
    ensures
        k >= 0 ==> neighbour_coords_upto(nt, radius, w, h, periodic, x, y, k).len() <= k,
        k < 0 ==> neighbour_coords_upto(nt, radius, w, h, periodic, x, y, k).len() == 0,
    decreases k,
{
    if k > 0 {
        lemma_neighbour_coords_upto_len(nt, radius, w, h, periodic, x, y, k - 1);
    }
}

/// A Moore neighbourhood admits every offset, so its list holds one entry
/// per cell of the offset square: `(2 radius + 1)^2` in all.
pub proof fn lemma_moore_coords_len(
    radius: int,
    w: int,
    h: int,
    periodic: bool,
    x: int,
    y: int,
    k: int,
)
    requires
        k >= 0,
    ensures
        neighbour_coords_upto(NeighbourhoodType::Moore, radius, w, h, periodic, x, y, k).len()
            == k,
    decreases k,
{
    if k > 0 {
        lemma_moore_coords_len(radius, w, h, periodic, x, y, k - 1);
    }
}

/// Law: neighbour resolution is a pure function of the shape, the radius,
/// the board geometry and the centre: two queries with the same parameters
/// return identical ordered coordinate lists, whatever either query's cache
/// held; a query made after the geometry changes follows the new geometry.
pub proof fn lemma_neighbourhood_query_deterministic(
    nt: NeighbourhoodType,
    radius: int,
    w: int,
    h: int,
    periodic: bool,
    x: int,
    y: int,
    r1: Seq<Option<(usize, usize)>>,
    r2: Seq<Option<(usize, usize)>>,
)
    requires
        r1 == neighbour_coords(nt, radius, w, h, periodic, x, y),
        r2 == neighbour_coords(nt, radius, w, h, periodic, x, y),
    ensures
        r1 == r2,
{
}

/// The neighbourhood of a cell: a shape and a radius, together with a
/// per-instance cache of resolved coordinate lists keyed by the board
/// geometry (width, height, and whether the boundary wraps).
///
/// The cache is invalidated whenever the geometry key changes, and every
/// query's result is the pure function of the current geometry and centre
/// whether it was served from the cache or computed afresh.
pub struct Neighbourhood {
    /// The shape of the neighbourhood.
    pub neighbourhood_type: NeighbourhoodType,
    /// The radius of the neighbourhood.
    pub radius: usize,
    /// The geometry key the cache was filled for: width, height, and
    /// whether the boundary wraps.
    pub board_cache: Option<(usize, usize, bool)>,
    /// Resolved coordinate lists, indexed by the centre's row-major index.
    pub neighbour_cache: Vec<Option<Vec<Option<(usize, usize)>>>>,
}

impl Neighbourhood {
    /// Every list held in the cache is the resolved coordinate list of its
    /// centre for the cached geometry key.
    pub open spec fn cache_ok(&self) -> bool {
        match self.board_cache {
            None => true,
            Some(key) => {
                &&& key.0 >= 1
                &&& key.1 >= 1
                &&& self.neighbour_cache@.len() == key.0 * key.1
                &&& forall|cx: int, cy: int|
                    0 <= cx < key.0 && 0 <= cy < key.1
                        && (#[trigger] self.neighbour_cache@[row_major_idx(key.0 as int, cx, cy)]) is Some
                    ==> self.neighbour_cache@[row_major_idx(key.0 as int, cx, cy)].unwrap()@
                        == neighbour_coords(
                            self.neighbourhood_type,
                            self.radius as int,
                            key.0 as int,
                            key.1 as int,
                            key.2,
                            cx,
                            cy,
                        )
            },
        }
    }

    /// A neighbourhood of the given shape and radius, with an empty cache.
    pub fn new(neighbourhood_type: NeighbourhoodType, radius: usize) -> (n: Neighbourhood)
        ensures
            n.neighbourhood_type == neighbourhood_type,
            n.radius == radius,
            n.cache_ok(),
    {
        Neighbourhood {
            neighbourhood_type,
            radius,
            board_cache: None,
            neighbour_cache: Vec::new(),
        }
    }

    /// The ordered coordinate list of the neighbourhood of `(x, y)` on the
    /// given board: one entry per offset of the shape, wrapped under a
    /// periodic boundary, or `None` for out-of-range cells under a fixed
    /// boundary. Served from the per-geometry cache when available; the
    /// result is the same either way.
    pub fn get_neighbourhood_coords<S: State>(&mut self, board: &Board<S>, x: usize, y: usize)
        -> (r: Vec<Option<(usize, usize)>>)
        requires
            old(self).cache_ok(),
            board.wf(),
            x < board.width,
            y < board.height,
            (2 * old(self).radius + 1) * (2 * old(self).radius + 1) <= usize::MAX,
        ensures
            final(self).cache_ok(),
            final(self).neighbourhood_type == old(self).neighbourhood_type,
            final(self).radius == old(self).radius,
            r@ == neighbour_coords(
                old(self).neighbourhood_type,
                old(self).radius as int,
                board.width as int,
                board.height as int,
                board.boundary_condition is Periodic,
                x as int,
                y as int,
            ),
    {
        let w = board.width();
        let h = board.height();
        let periodic: bool = match board.boundary_condition() {
            BoundaryCondition::Periodic => true,
            BoundaryCondition::Fixed(_) => false,
        };

        // Invalidate the cache if the geometry key has changed.
        let key_matches: bool = match self.board_cache {
            Some(key) => key.0 == w && key.1 == h && key.2 == periodic,
            None => false,
        };
        if !key_matches {
            let n = board.cells.len();
            let mut fresh: Vec<Option<Vec<Option<(usize, usize)>>>> = Vec::new();
            for k in 0..n
                invariant
                    fresh@.len() == k,
                    forall|i: int| 0 <= i < k ==> (#[trigger] fresh@[i]) is None,
            {
                fresh.push(None);
            }
            self.neighbour_cache = fresh;
            self.board_cache = Some((w, h, periodic));
        }

        let _total = board.cells.len();
        proof {
            crate::board::lemma_row_major_bounds(w as int, h as int, x as int, y as int);
        }
        let idx: usize = y * w + x;

        // Serve from the cache when the centre has been resolved before.
        let entry_ref: &Option<Vec<Option<(usize, usize)>>> = &self.neighbour_cache[idx];
        match entry_ref {
            Some(cached) => {
                proof {
                    assert(self.neighbour_cache@[row_major_idx(w as int, x as int, y as int)] is Some);
                }
                return copy_coord_list(cached);
            },
            None => {},
        }

        let result = compute_neighbour_coords(
            self.neighbourhood_type,
            self.radius,
            w,
            h,
            periodic,
            x,
            y,
        );
        let stored = copy_coord_list(&result);
        let ghost before_store = self.neighbour_cache@;
        self.neighbour_cache[idx] = Some(stored);
        proof {
            let wi = w as int;
            let hi = h as int;
            assert forall|cx: int, cy: int|
                0 <= cx < wi && 0 <= cy < hi
                    && (#[trigger] self.neighbour_cache@[row_major_idx(wi, cx, cy)]) is Some
                implies self.neighbour_cache@[row_major_idx(wi, cx, cy)].unwrap()@
                    == neighbour_coords(
                        self.neighbourhood_type,
                        self.radius as int,
                        wi,
                        hi,
                        periodic,
                        cx,
                        cy,
                    ) by {
                crate::board::lemma_row_major_bounds(wi, hi, cx, cy);
                if row_major_idx(wi, cx, cy) == idx {
                    crate::board::lemma_row_major_injective(wi, cx, cy, x as int, y as int);
                } else {
                    assert(self.neighbour_cache@[row_major_idx(wi, cx, cy)]
                        == before_store[row_major_idx(wi, cx, cy)]);
                }
            }
        }
        result
    }

    /// The states of the neighbourhood of `(x, y)`, in the same order as
    /// the coordinate list. A wrapped or in-range entry reads its cell; an
    /// absent entry under a fixed boundary reads the boundary's default
    /// state, so the output length always equals the shape's entry count.
    pub fn get_neighbourhood_states<S: State>(&mut self, board: &Board<S>, x: usize, y: usize)
        -> (r: Vec<Option<S>>)
        requires
            old(self).cache_ok(),
            board.wf(),
            x < board.width,
            y < board.height,
            (2 * old(self).radius + 1) * (2 * old(self).radius + 1) <= usize::MAX,
        ensures
            final(self).cache_ok(),
            final(self).neighbourhood_type == old(self).neighbourhood_type,
            final(self).radius == old(self).radius,
            ({
                let cs = neighbour_coords(
                    old(self).neighbourhood_type,
                    old(self).radius as int,
                    board.width as int,
                    board.height as int,
                    board.boundary_condition is Periodic,
                    x as int,
                    y as int,
                );
                &&& r@.len() == cs.len()
                &&& forall|i: int| 0 <= i < cs.len()
                    ==> r@[i] == neighbour_state_of(*board, #[trigger] cs[i])
            }),
    {
        let neighbours: Vec<Option<(usize, usize)>> = self.get_neighbourhood_coords(board, x, y);
        let mut states: Vec<Option<S>> = Vec::new();
        let n = neighbours.len();
        for k in 0..n
            invariant
                board.wf(),
                n == neighbours@.len(),
                states@.len() == k,
                forall|i: int| 0 <= i < k
                    ==> states@[i] == neighbour_state_of(*board, #[trigger] neighbours@[i]),
        {
            match neighbours[k] {
                Some(c) => {
                    states.push(board.get(c.0, c.1));
                },
                None => {
                    match board.boundary_condition() {
                        BoundaryCondition::Fixed(val) => states.push(Some(val)),
                        BoundaryCondition::Periodic => states.push(None),
                    }
                },
            }
        }
        states
    }

    /// The states of the neighbourhood of `(x, y)` paired with the offset
    /// `(dx, dy)` that produced each entry, for rules that need directional
    /// information. Absent entries under a fixed boundary carry their
    /// producing offset too.
    pub fn get_neighbourhood_states_coords<S: State>(&mut self, board: &Board<S>, x: usize, y: usize)
        -> (r: Vec<(Option<S>, (isize, isize))>)
        requires
            old(self).cache_ok(),
            board.wf(),
            x < board.width,
            y < board.height,
            (2 * old(self).radius + 1) * (2 * old(self).radius + 1) <= usize::MAX,
            old(self).radius <= isize::MAX,
        ensures
            final(self).cache_ok(),
            final(self).neighbourhood_type == old(self).neighbourhood_type,
            final(self).radius == old(self).radius,
            ({
                let cs = neighbour_coords(
                    old(self).neighbourhood_type,
                    old(self).radius as int,
                    board.width as int,
                    board.height as int,
                    board.boundary_condition is Periodic,
                    x as int,
                    y as int,
                );
                let offs = neighbour_offsets(old(self).neighbourhood_type, old(self).radius as int);
                &&& r@.len() == cs.len()
                &&& offs.len() == cs.len()
                &&& forall|i: int| 0 <= i < cs.len()
                    ==> (#[trigger] r@[i]).0 == neighbour_state_of(*board, cs[i]) && r@[i].1
                        == offs[i]
            }),
    {
        let neighbours: Vec<Option<(usize, usize)>> = self.get_neighbourhood_coords(board, x, y);
        let offsets = compute_neighbour_offsets(self.neighbourhood_type, self.radius);
        proof {
            lemma_coords_offsets_aligned(
                old(self).neighbourhood_type,
                old(self).radius as int,
                board.width as int,
                board.height as int,
                board.boundary_condition is Periodic,
                x as int,
                y as int,
                (2 * old(self).radius as int + 1) * (2 * old(self).radius as int + 1),
            );
        }
        let mut states_coords: Vec<(Option<S>, (isize, isize))> = Vec::new();
        let n = neighbours.len();
        for k in 0..n
            invariant
                board.wf(),
                n == neighbours@.len(),
                n == offsets@.len(),
                states_coords@.len() == k,
                forall|i: int| 0 <= i < k
                    ==> (#[trigger] states_coords@[i]).0 == neighbour_state_of(
                        *board, neighbours@[i]) && states_coords@[i].1 == offsets@[i],
        {
            let offset = offsets[k];
            match neighbours[k] {
                Some(c) => {
                    states_coords.push((board.get(c.0, c.1), offset));
                },
                None => {
                    match board.boundary_condition() {
                        BoundaryCondition::Fixed(val) => states_coords.push((Some(val), offset)),
                        BoundaryCondition::Periodic => states_coords.push((None, offset)),
                    }
                },
            }
        }
        states_coords
    }
}

/// Compute the producing offsets of the neighbourhood by walking the
/// offset square in its fixed nested-loop order.
fn compute_neighbour_offsets(nt: NeighbourhoodType, radius: usize) -> (out: Vec<(isize, isize)>)
    requires
        (2 * radius + 1) * (2 * radius + 1) <= usize::MAX,
        radius <= isize::MAX,
    ensures
        out@ == neighbour_offsets(nt, radius as int),
{
    proof {
        assert(2 * radius + 1 <= (2 * radius + 1) * (2 * radius + 1)) by (nonlinear_arith)
            requires radius >= 0;
    }
    let side: usize = 2 * radius + 1;
    let mut out: Vec<(isize, isize)> = Vec::new();
    proof {
        assert(0 * side == 0) by (nonlinear_arith);
    }
    for a in 0..side
        invariant
            side == 2 * radius + 1,
            side * side <= usize::MAX,
            radius <= isize::MAX,
            out@ == neighbour_offsets_upto(nt, radius as int, a * side),
    {
        for b in 0..side
            invariant
                side == 2 * radius + 1,
                side * side <= usize::MAX,
                radius <= isize::MAX,
                a < side,
                out@ == neighbour_offsets_upto(nt, radius as int, a * side + b),
        {
            let keep: bool = match nt {
                NeighbourhoodType::Moore => true,
                NeighbourhoodType::VonNeumann => {
                    let man_a: usize = if a >= radius { a - radius } else { radius - a };
                    let man_b: usize = if b >= radius { b - radius } else { radius - b };
                    (man_a > 0 || man_b > 0) && man_a <= radius && man_b <= radius - man_a
                }
            };
            proof {
                assert(0 <= a * side + b && a * side + b < side * side) by (nonlinear_arith)
                    requires a < side && b < side;
                lemma_fundamental_div_mod_converse((a * side + b) as int, side as int, a as int, b as int);
            }
            if keep {
                let dx: isize = if a >= radius {
                    (a - radius) as isize
                } else {
                    -((radius - a) as isize)
                };
                let dy: isize = if b >= radius {
                    (b - radius) as isize
                } else {
                    -((radius - b) as isize)
                };
                out.push((dx, dy));
            }
        }
        proof {
            assert((a + 1) * side == a * side + side) by (nonlinear_arith);
        }
    }
    proof {
        assert(side * side == (2 * radius + 1) * (2 * radius + 1));
    }
    out
}

} // verus!
