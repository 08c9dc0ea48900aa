use vstd::prelude::*;
use crate::board::Colour;

verus! {

/// Capability set that every cell value must satisfy: copy semantics, total
/// equality, and safe sharing across parallel workers. A state is immutable
/// once produced; a new value always fully replaces the old one.
pub trait State: Copy + PartialEq + Eq + Send + Sync {
}

/// State of a cell in the Game of Life: dead or alive.
#[derive(Clone, Copy, PartialEq, Eq, Debug)]
pub enum GameOfLifeState {
    Dead,
    Alive,
}

impl State for GameOfLifeState {
}

impl crate::board::ToColour for GameOfLifeState {
    open spec fn colour_spec(&self) -> Colour {
        match self {
            GameOfLifeState::Dead => Colour { r: 0, g: 0, b: 0 },
            GameOfLifeState::Alive => Colour { r: 255, g: 255, b: 255 },
        }
    }

    fn to_colour(&self) -> (c: Colour) {
        match self {
            GameOfLifeState::Dead => Colour::black(),
            GameOfLifeState::Alive => Colour::white(),
        }
    }
}

/// Facing direction of the ant in Langton's Ant.
#[derive(Clone, Copy, Debug, Eq, PartialEq)]
pub enum AntDirection {
    Up,
    Right,
    Down,
    Left,
}

/// Background colour of a cell in Langton's Ant.
#[derive(Clone, Copy, Debug, Eq, PartialEq)]
pub enum CellColour {
    White,
    Black,
}

/// Cell state for Langton's Ant: a background colour and optionally an ant
/// with a facing direction. `ant_direction` is `None` when no ant stands on
/// the cell.
#[derive(Clone, Copy, Debug, Eq, PartialEq)]
pub struct LangtonsAntState {
    pub colour: CellColour,
    pub ant_direction: Option<AntDirection>,
}

impl State for LangtonsAntState {
}

impl crate::board::ToColour for LangtonsAntState {
    open spec fn colour_spec(&self) -> Colour {
        if self.ant_direction is Some {
            Colour { r: 255, g: 0, b: 0 }
        } else {
            match self.colour {
                CellColour::White => Colour { r: 255, g: 255, b: 255 },
                CellColour::Black => Colour { r: 0, g: 0, b: 0 },
            }
        }
    }

    fn to_colour(&self) -> (c: Colour) {
        if self.ant_direction.is_some() {
            Colour::red()
        } else {
            match self.colour {
                CellColour::White => Colour::white(),
                CellColour::Black => Colour::black(),
            }
        }
    }
}

} // verus!
