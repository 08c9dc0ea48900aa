use vstd::prelude::*;
use vstd::arithmetic::div_mod::{lemma_mod_add_multiples_vanish, lemma_mod_twice};
use crate::error::OutOfBoundsSetError;
use crate::state::State;

verus! {

/// Flat row-major index of the cell at `(x, y)` on a grid of the given
/// width.
pub open spec fn row_major_idx(width: int, x: int, y: int) -> int {
    y * width + x
}

/// The cell at `(x, y)` of a row-major buffer of the given width.
pub open spec fn cell_at<S>(width: int, cells: Seq<S>, x: int, y: int) -> S {
    cells[row_major_idx(width, x, y)]
}

/// Policy for resolving coordinates outside the grid extent.
///
/// - `Periodic`: coordinates wrap modulo width/height, both for neighbour
///   reads and for writes.
/// - `Fixed(v)`: out-of-range coordinates resolve to the constant `v` for
///   neighbour reads; an out-of-range write is an error.
#[derive(Clone, Copy, Debug, Eq, PartialEq)]
pub enum BoundaryCondition<S: State> {
    Periodic,
    Fixed(S),
}

/// A dense 2-D grid of cell states together with its edge-handling policy.
///
/// The cells are stored in row-major order: the cell at `(x, y)` sits at
/// flat index `y * width + x`. A well-formed board has `width >= 1`,
/// `height >= 1` and exactly `width * height` cells; the dimensions and the
/// boundary condition never change after construction.
#[derive(Clone, Debug, Eq, PartialEq)]
pub struct Board<S: State> {
    pub cells: Vec<S>,
    pub width: usize,
    pub height: usize,
    pub boundary_condition: BoundaryCondition<S>,
}

impl<S: State> Board<S> {
    /// Well-formedness: positive dimensions and a buffer of exactly
    /// `width * height` cells.
    pub open spec fn wf(&self) -> bool {
        &&& self.width >= 1
        &&& self.height >= 1
        &&& self.cells@.len() == self.width * self.height
    }

    /// Flat row-major index of the cell at `(x, y)`.
    pub open spec fn flat_idx(&self, x: int, y: int) -> int {
        row_major_idx(self.width as int, x, y)
    }

    /// The state of the cell at in-range coordinates `(x, y)`.
    pub open spec fn cell(&self, x: int, y: int) -> S {
        cell_at(self.width as int, self.cells@, x, y)
    }

    /// True when both boards have the same dimensions and boundary policy.
    pub open spec fn same_shape(&self, other: &Board<S>) -> bool {
        &&& self.width == other.width
        &&& self.height == other.height
        &&& self.boundary_condition == other.boundary_condition
    }

    /// Create a board from a rectangular row-major matrix of initial states.
    /// The matrix must have at least one row and all rows of equal, positive
    /// length.
    pub fn new(initial_state: Vec<Vec<S>>, boundary_condition: BoundaryCondition<S>) -> (board: Board<S>)
        requires
            initial_state@.len() >= 1,
            initial_state@[0]@.len() >= 1,
            forall|j: int| 0 <= j < initial_state@.len()
                ==> (#[trigger] initial_state@[j]@.len()) == initial_state@[0]@.len(),
        ensures
            board.wf(),
            board.width == initial_state@[0]@.len(),
            board.height == initial_state@.len(),
            board.boundary_condition == boundary_condition,
            forall|x: int, y: int| 0 <= x < board.width && 0 <= y < board.height
                ==> #[trigger] board.cell(x, y) == initial_state@[y]@[x],
    {
        let width = initial_state[0].len();
        let height = initial_state.len();
        let mut cells: Vec<S> = Vec::new();
        proof {
            assert(0 * width == 0) by (nonlinear_arith);
        }
        for y in 0..height
            invariant
                width == initial_state@[0]@.len(),
                height == initial_state@.len(),
                forall|j: int| 0 <= j < height ==> (#[trigger] initial_state@[j]@.len()) == width,
                cells@.len() == y * width,
                forall|i: int, j: int| 0 <= i < width && 0 <= j < y
                    ==> cells@[#[trigger] row_major_idx(width as int, i, j)] == initial_state@[j]@[i],
        {
            let row = &initial_state[y];
            for x in 0..width
                invariant
                    width == initial_state@[0]@.len(),
                    height == initial_state@.len(),
                    forall|j: int| 0 <= j < height ==> (#[trigger] initial_state@[j]@.len()) == width,
                    y < height,
                    row@ == initial_state@[y as int]@,
                    cells@.len() == y * width + x,
                    forall|i: int, j: int| 0 <= i < width && 0 <= j < y
                        ==> cells@[#[trigger] row_major_idx(width as int, i, j)] == initial_state@[j]@[i],
                    forall|i: int| 0 <= i < x
                        ==> cells@[#[trigger] row_major_idx(width as int, i, y as int)]
                            == initial_state@[y as int]@[i],
            {
                proof {
                    assert forall|i: int, j: int| 0 <= i < width && 0 <= j < y
                        implies 0 <= #[trigger] row_major_idx(width as int, i, j) < y * width by {
                        assert(0 <= j * width + i < y * width) by (nonlinear_arith)
                            requires 0 <= i < width && 0 <= j && j < y;
                    }
                }
                cells.push(row[x]);
            }
            proof {
                assert((y + 1) * width == y * width + width) by (nonlinear_arith);
            }
        }
        proof {
            assert(height * width == width * height) by (nonlinear_arith);
        }
        Board { cells, width, height, boundary_condition }
    }

    /// Width of the board.
    pub fn width(&self) -> (w: usize)
        ensures
            w == self.width,
    {
        self.width
    }

    /// Height of the board.
    pub fn height(&self) -> (h: usize)
        ensures
            h == self.height,
    {
        self.height
    }

    /// The boundary condition of the board.
    pub fn boundary_condition(&self) -> (bc: BoundaryCondition<S>)
        ensures
            bc == self.boundary_condition,
    {
        self.boundary_condition
    }

    /// Read the cell at `(x, y)`. Returns `None` exactly when the coordinate
    /// lies outside `[0, width) x [0, height)`; never errors.
    pub fn get(&self, x: usize, y: usize) -> (r: Option<S>)
        requires
            self.wf(),
        ensures
            x < self.width && y < self.height ==> r == Some(self.cell(x as int, y as int)),
            !(x < self.width && y < self.height) ==> r is None,
    {
        if x < self.width && y < self.height {
            let _n = self.cells.len();
            proof {
                assert(y * self.width + x < self.width * self.height) by (nonlinear_arith)
                    requires x < self.width && y < self.height;
            }
            Some(self.cells[y * self.width + x])
        } else {
            None
        }
    }

    /// Write the cell at `(x, y)`.
    ///
    /// Under `Periodic` the coordinates wrap modulo width/height and the
    /// write always succeeds. Under `Fixed` an out-of-range coordinate
    /// yields `OutOfBoundsSetError` carrying the coordinate and the board's
    /// dimensions, and the board is left unchanged.
    pub fn set(&mut self, x: usize, y: usize, state: S) -> (r: Result<(), OutOfBoundsSetError>)
        requires
            old(self).wf(),
        ensures
            final(self).wf(),
            final(self).same_shape(old(self)),
            old(self).boundary_condition is Periodic ==> {
                &&& r is Ok
                &&& final(self).cells@ == old(self).cells@.update(
                    old(self).flat_idx(x as int % old(self).width as int, y as int % old(self).height as int),
                    state,
                )
            },
            old(self).boundary_condition is Fixed && x < old(self).width && y < old(self).height ==> {
                &&& r is Ok
                &&& final(self).cells@ == old(self).cells@.update(old(self).flat_idx(x as int, y as int), state)
            },
            old(self).boundary_condition is Fixed && !(x < old(self).width && y < old(self).height) ==> {
                &&& r == Err::<(), OutOfBoundsSetError>((OutOfBoundsSetError {
                    x,
                    y,
                    width: old(self).width,
                    height: old(self).height,
                }))
                &&& *final(self) == *old(self)
            },
    {
        match self.boundary_condition {
            BoundaryCondition::Periodic => {
                let xw: usize = x % self.width;
                let yw: usize = y % self.height;
                let _n = self.cells.len();
                proof {
                    assert(yw * self.width + xw < self.width * self.height) by (nonlinear_arith)
                        requires xw < self.width && yw < self.height;
                }
                self.cells[yw * self.width + xw] = state;
            }
            BoundaryCondition::Fixed(_fixed_state) => {
                if x < self.width && y < self.height {
                    let _n = self.cells.len();
                    proof {
                        assert(y * self.width + x < self.width * self.height) by (nonlinear_arith)
                            requires x < self.width && y < self.height;
                    }
                    self.cells[y * self.width + x] = state;
                } else {
                    return Err(OutOfBoundsSetError {
                        x,
                        y,
                        width: self.width,
                        height: self.height,
                    });
                }
            }
        }
        Ok(())
    }

    /// An iterator-like cursor over the coordinates of the board in
    /// row-major order: `(0,0), (1,0), ..., (width-1,0), (0,1), ...`.
    pub fn iter_coords(&self) -> (it: IterCoords)
        requires
            self.wf(),
        ensures
            it.wf(),
            it.x == 0,
            it.y == 0,
            it.width == self.width,
            it.height == self.height,
    {
        IterCoords { x: 0, y: 0, width: self.width, height: self.height }
    }

    /// Project every cell through its colour mapping, producing a
    /// `height x width` matrix of colours for the rendering collaborator.
    pub fn to_representation(&self) -> (rep: BoardRepresentation) where S: ToColour
        requires
            self.wf(),
        ensures
            rep@.len() == self.height,
            forall|y: int| 0 <= y < self.height ==> (#[trigger] rep@[y])@.len() == self.width,
            forall|x: int, y: int| 0 <= x < self.width && 0 <= y < self.height
                ==> (#[trigger] rep@[y]@[x]) == self.cell(x, y).colour_spec(),
    {
        let mut representation: BoardRepresentation = Vec::new();
        for y in 0..self.height
            invariant
                self.wf(),
                representation@.len() == y,
                forall|j: int| 0 <= j < y ==> (#[trigger] representation@[j])@.len() == self.width,
                forall|i: int, j: int| 0 <= i < self.width && 0 <= j < y
                    ==> (#[trigger] representation@[j]@[i]) == self.cell(i, j).colour_spec(),
        {
            let mut row: Vec<Colour> = Vec::new();
            for x in 0..self.width
                invariant
                    self.wf(),
                    y < self.height,
                    row@.len() == x,
                    forall|i: int| 0 <= i < x
                        ==> (#[trigger] row@[i]) == self.cell(i, y as int).colour_spec(),
            {
                let s = self.get(x, y).unwrap();
                row.push(s.to_colour());
            }
            representation.push(row);
        }
        representation
    }
}

/// Law: writing a cell and then reading the same in-range coordinate
/// returns the value written, and no other cell changes. The premises are
/// exactly what `Board::set` ensures of a successful in-range write, with
/// `after` standing for the board after the call.
pub proof fn lemma_set_then_get<S: State>(before: Board<S>, after: Board<S>, x: int, y: int, v: S)
    requires
        before.wf(),
        0 <= x < before.width,
        0 <= y < before.height,
        after.width == before.width,
        after.height == before.height,
        after.cells@ == before.cells@.update(before.flat_idx(x, y), v),
    ensures
        after.wf(),
        after.cell(x, y) == v,
        forall|i: int, j: int| 0 <= i < before.width && 0 <= j < before.height && (i != x || j != y)
            ==> #[trigger] after.cell(i, j) == before.cell(i, j),
{
    assert(0 <= y * before.width + x < before.width * before.height) by (nonlinear_arith)
        requires 0 <= x < before.width && 0 <= y < before.height;
    assert forall|i: int, j: int|
        0 <= i < before.width && 0 <= j < before.height && (i != x || j != y)
        implies #[trigger] after.cell(i, j) == before.cell(i, j) by {
        assert(j * before.width + i != y * before.width + x) by (nonlinear_arith)
            requires
                0 <= i < before.width && 0 <= x < before.width && 0 <= j && 0 <= y && (i != x || j != y);
        assert(0 <= j * before.width + i < before.width * before.height) by (nonlinear_arith)
            requires 0 <= i < before.width && 0 <= j < before.height;
    }
}

/// Row-major indexing is injective: distinct in-range coordinates have
/// distinct flat indices.
pub proof fn lemma_row_major_injective(w: int, x1: int, y1: int, x2: int, y2: int)
    requires
        w >= 1,
        0 <= x1 < w,
        0 <= x2 < w,
        0 <= y1,
        0 <= y2,
        row_major_idx(w, x1, y1) == row_major_idx(w, x2, y2),
    ensures
        x1 == x2,
        y1 == y2,
{
    assert(x1 == x2 && y1 == y2) by (nonlinear_arith)
        requires
            w >= 1,
            0 <= x1 < w,
            0 <= x2 < w,
            0 <= y1,
            0 <= y2,
            y1 * w + x1 == y2 * w + x2;
}

/// The flat index of an in-range coordinate lies within the buffer.
pub proof fn lemma_row_major_bounds(w: int, h: int, x: int, y: int)
    requires
        w >= 1,
        0 <= x < w,
        0 <= y < h,
    ensures
        0 <= row_major_idx(w, x, y) < w * h,
{
    assert(0 <= y * w + x < w * h) by (nonlinear_arith)
        requires
            0 <= x < w,
            0 <= y < h;
}

/// Law: under a periodic boundary, wrap-aware access at `(x mod width,
/// y mod height)` touches the same cell as wrap-aware access at `(x, y)`
/// itself, and coordinates that differ by a full board width or height
/// resolve to the same wrapped coordinate: a write at `(x + width, y)` is
/// equivalent to one at `(x, y)`, and likewise for the height.
pub proof fn lemma_periodic_wrap_equivalence<S: State>(b: Board<S>, x: int, y: int)
    requires
        b.wf(),
        x >= 0,
        y >= 0,
    ensures
        (x % (b.width as int)) % (b.width as int) == x % (b.width as int),
        (y % (b.height as int)) % (b.height as int) == y % (b.height as int),
        (x + b.width) % (b.width as int) == x % (b.width as int),
        (y + b.height) % (b.height as int) == y % (b.height as int),
        b.flat_idx((x + b.width) % (b.width as int), (y + b.height) % (b.height as int))
            == b.flat_idx(x % (b.width as int), y % (b.height as int)),
{
    lemma_mod_twice(x, b.width as int);
    lemma_mod_twice(y, b.height as int);
    lemma_mod_add_multiples_vanish(x, b.width as int);
    lemma_mod_add_multiples_vanish(y, b.height as int);
}

/// A `height x width` matrix of colours describing a board, one entry per
/// cell, used by the rendering collaborator.
pub type BoardRepresentation = Vec<Vec<Colour>>;

/// Mapping from a cell state to the colour that renders it.
pub trait ToColour {
    /// The colour this value maps to.
    spec fn colour_spec(&self) -> Colour;

    /// Compute the colour this value maps to.
    fn to_colour(&self) -> (c: Colour)
        ensures
            c == self.colour_spec(),
    ;
}

/// An RGB colour, used for rendering.
#[derive(Clone, Copy, Debug, Eq, PartialEq, Structural)]
pub struct Colour {
    /// The red component of the colour.
    pub r: u8,
    /// The green component of the colour.
    pub g: u8,
    /// The blue component of the colour.
    pub b: u8,
}

impl Colour {
    /// A colour from its red, green and blue components.
    pub fn new(r: u8, g: u8, b: u8) -> (c: Colour)
        ensures
            c == (Colour { r, g, b }),
    {
        Colour { r, g, b }
    }

    /// White.
    pub fn white() -> (c: Colour)
        ensures
            c == (Colour { r: 255, g: 255, b: 255 }),
    {
        Colour { r: 255, g: 255, b: 255 }
    }

    /// Black.
    pub fn black() -> (c: Colour)
        ensures
            c == (Colour { r: 0, g: 0, b: 0 }),
    {
        Colour { r: 0, g: 0, b: 0 }
    }

    /// Red.
    pub fn red() -> (c: Colour)
        ensures
            c == (Colour { r: 255, g: 0, b: 0 }),
    {
        Colour { r: 255, g: 0, b: 0 }
    }

    /// Green.
    pub fn green() -> (c: Colour)
        ensures
            c == (Colour { r: 0, g: 255, b: 0 }),
    {
        Colour { r: 0, g: 255, b: 0 }
    }

    /// Blue.
    pub fn blue() -> (c: Colour)
        ensures
            c == (Colour { r: 0, g: 0, b: 255 }),
    {
        Colour { r: 0, g: 0, b: 255 }
    }
}

/// A cursor over the coordinates of a board in row-major order. Each call
/// to `next` yields one `(x, y)` pair; after the last cell it yields `None`.
pub struct IterCoords {
    pub x: usize,
    pub y: usize,
    pub width: usize,
    pub height: usize,
}

impl IterCoords {
    /// The cursor either points at an in-range coordinate or rests one past
    /// the last row.
    pub open spec fn wf(&self) -> bool {
        &&& self.width >= 1
        &&& self.height >= 1
        &&& (self.x < self.width && self.y < self.height) || (self.x == 0 && self.y == self.height)
    }

    /// Yield the current coordinate and advance in row-major order, or
    /// return `None` once all coordinates have been yielded.
    pub fn next(&mut self) -> (r: Option<(usize, usize)>)
        requires
            old(self).wf(),
        ensures
            final(self).wf(),
            final(self).width == old(self).width,
            final(self).height == old(self).height,
            old(self).y < old(self).height ==> {
                &&& r == Some((old(self).x, old(self).y))
                &&& (old(self).x + 1 < old(self).width ==> final(self).x == old(self).x + 1
                    && final(self).y == old(self).y)
                &&& (old(self).x + 1 == old(self).width ==> final(self).x == 0
                    && final(self).y == old(self).y + 1)
            },
            old(self).y >= old(self).height ==> r is None && *final(self) == *old(self),
    {
        if self.y < self.height {
            let coord: (usize, usize) = (self.x, self.y);
            self.x = self.x + 1;
            if self.x == self.width {
                self.x = 0;
                self.y = self.y + 1;
            }
            Some(coord)
        } else {
            None
        }
    }
}

} // verus!
