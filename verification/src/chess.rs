//! The few board facts the evaluator and the search heuristics read: sides,
//! piece kinds and the 16-bit move encoding.
use vstd::prelude::*;

verus! {

/// A side.
#[derive(Clone, Copy, Debug, PartialEq, Eq, Structural)]
pub enum Color {
    White,
    Black,
}

/// `0` for White, `1` for Black.
pub open spec fn color_index(c: Color) -> int {
    match c {
        Color::White => 0,
        Color::Black => 1,
    }
}

impl Color {
    pub fn index(self) -> (i: usize)
        ensures
            i == color_index(self),
    {
        match self {
            Color::White => 0,
            Color::Black => 1,
        }
    }

    /// The other side.
    pub fn flip(self) -> (c: Color)
        ensures
            c != self,
    {
        match self {
            Color::White => Color::Black,
            Color::Black => Color::White,
        }
    }
}

/// A piece kind.
#[derive(Clone, Copy, Debug, PartialEq, Eq, Structural)]
pub enum Piece {
    Pawn,
    Knight,
    Bishop,
    Rook,
    Queen,
    King,
}

/// Pawn `0` up to King `5`.
pub open spec fn piece_index(p: Piece) -> int {
    match p {
        Piece::Pawn => 0,
        Piece::Knight => 1,
        Piece::Bishop => 2,
        Piece::Rook => 3,
        Piece::Queen => 4,
        Piece::King => 5,
    }
}

impl Piece {
    pub fn index(self) -> (i: usize)
        ensures
            i == piece_index(self),
    {
        match self {
            Piece::Pawn => 0,
            Piece::Knight => 1,
            Piece::Bishop => 2,
            Piece::Rook => 3,
            Piece::Queen => 4,
            Piece::King => 5,
        }
    }
}

/// A piece of a given side.
#[derive(Clone, Copy, Debug, PartialEq, Eq, Structural)]
pub struct ColoredPiece {
    pub piece: Piece,
    pub color: Color,
}

/// Marks a missing square.
pub const NO_SQUARE: u8 = 64;

/// Move kinds, by the value of their 4-bit code: bit 3 marks a promotion,
/// bit 2 a capture, and the low two bits of a promotion the promoted piece.
pub const KIND_QUIET: u16 = 0;
pub const KIND_DOUBLE_PUSH: u16 = 1;
pub const KIND_CASTLE: u16 = 2;
pub const KIND_EN_PASSANT: u16 = 3;
pub const KIND_CAPTURE: u16 = 4;
pub const KIND_PROMOTION_KNIGHT: u16 = 8;
pub const KIND_PROMOTION_QUEEN: u16 = 11;
pub const KIND_CAPTURE_PROMOTION_KNIGHT: u16 = 12;
pub const KIND_CAPTURE_PROMOTION_QUEEN: u16 = 15;

/// A move: origin in bits 0-5, destination in bits 6-11, kind code in bits 12-15.
#[derive(Clone, Copy, Debug, PartialEq, Eq, Structural)]
pub struct Move {
    pub bits: u16,
}

/// The kind code of a move.
pub open spec fn move_kind(m: Move) -> int {
    (m.bits / 4096) as int
}

impl Move {
    /// The empty move, used where no move is known.
    pub fn null() -> (m: Move)
        ensures
            m.bits == 0,
    {
        Move { bits: 0 }
    }

    pub fn new(from: u16, to: u16, kind: u16) -> (m: Move)
        requires
            from < 64,
            to < 64,
            kind < 16,
        ensures
            m.bits == from + 64 * to + 4096 * kind,
            move_kind(m) == kind,
    {
        Move { bits: from + 64 * to + 4096 * kind }
    }

    pub fn from_square(self) -> (s: u16)
        ensures
            s == self.bits % 64,
    {
        self.bits % 64
    }

    pub fn to_square(self) -> (s: u16)
        ensures
            s == (self.bits / 64) % 64,
    {
        (self.bits / 64) % 64
    }

    pub fn kind(self) -> (k: u16)
        ensures
            k == move_kind(self),
            k < 16,
    {
        self.bits / 4096
    }

    /// Whether two moves are the same move.
    pub fn same(self, other: Move) -> (b: bool)
        ensures
            b == (self.bits == other.bits),
    {
        self.bits == other.bits
    }
}

} // verus!
