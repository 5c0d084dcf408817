//! The state of a single grid position, its byte encoding and the transition rule.

use vstd::prelude::*;

verus! {

/// The state of one grid position.
///
/// A cell is stored and exchanged as one byte: `Dead` is 0 and `Alive` is 1.
#[derive(Clone, Copy, Debug, PartialEq, Eq, Structural)]
pub enum Cell {
    Dead,
    Alive,
}

impl Cell {
    /// The byte that encodes this cell.
    pub open spec fn code(self) -> u8 {
        match self {
            Cell::Dead => 0u8,
            Cell::Alive => 1u8,
        }
    }

    /// The cell that a byte encodes, if it encodes one.
    pub open spec fn decode(byte: u8) -> Option<Cell> {
        if byte == 0 {
            Some(Cell::Dead)
        } else if byte == 1 {
            Some(Cell::Alive)
        } else {
            None
        }
    }

    /// The opposite state.
    pub open spec fn flipped(self) -> Cell {
        match self {
            Cell::Dead => Cell::Alive,
            Cell::Alive => Cell::Dead,
        }
    }

    /// The state of this cell in the next generation, given how many of its
    /// eight neighbours are alive now.
    ///
    /// A live cell survives with two or three live neighbours; a dead cell comes
    /// to life with exactly three. Every other cell is dead.
    pub open spec fn next_state(self, live_neighbors: int) -> Cell {
        if live_neighbors == 3 || (self == Cell::Alive && live_neighbors == 2) {
            Cell::Alive
        } else {
            Cell::Dead
        }
    }

    /// The character that stands for this cell in a textual dump: a white
    /// square (U+25FB) for a dead cell, a black square (U+25FC) for a live one.
    pub open spec fn glyph(self) -> char {
        match self {
            Cell::Dead => '\u{25FB}',
            Cell::Alive => '\u{25FC}',
        }
    }

    /// Encodes the cell as its byte.
    pub fn to_byte(self) -> (byte: u8)
        ensures
            byte == self.code(),
            byte == 0 || byte == 1,
            Cell::decode(byte) == Some(self),
    {
        match self {
            Cell::Dead => 0,
            Cell::Alive => 1,
        }
    }

    /// Decodes a byte. Only 0 and 1 encode a cell.
    pub fn from_byte(byte: u8) -> (cell: Option<Cell>)
        ensures
            cell == Cell::decode(byte),
            cell is Some <==> byte <= 1,
            cell matches Some(c) ==> c.code() == byte,
    {
        if byte == 0 {
            Some(Cell::Dead)
        } else if byte == 1 {
            Some(Cell::Alive)
        } else {
            None
        }
    }

    /// Returns the opposite state.
    pub fn toggled(self) -> (cell: Cell)
        ensures
            cell == self.flipped(),
    {
        match self {
            Cell::Dead => Cell::Alive,
            Cell::Alive => Cell::Dead,
        }
    }

    /// Applies the transition rule for a cell with `live_neighbors` live
    /// neighbours.
    pub fn evolve(self, live_neighbors: u8) -> (cell: Cell)
        ensures
            cell == self.next_state(live_neighbors as int),
    {
        match self {
            Cell::Alive => if live_neighbors == 2 || live_neighbors == 3 {
                Cell::Alive
            } else {
                Cell::Dead
            },
            Cell::Dead => if live_neighbors == 3 {
                Cell::Alive
            } else {
                Cell::Dead
            },
        }
    }

    /// The cell's glyph, as a string of that one character.
    pub fn glyph_str(self) -> (text: &'static str)
        ensures
            text@ == seq![self.glyph()],
    {
        proof {
            reveal_strlit("\u{25FB}");
            reveal_strlit("\u{25FC}");
        }
        let text = match self {
            Cell::Dead => "\u{25FB}",
            Cell::Alive => "\u{25FC}",
        };
        assert(text@ =~= seq![self.glyph()]);
        text
    }
}

} // verus!
