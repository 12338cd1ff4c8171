//! Players, piece kinds and the material value of a man.

use vstd::prelude::*;

verus! {

/// Material value of a pawn.
pub const PAWN_VALUE: i32 = 100;

/// Material value of a knight.
pub const KNIGHT_VALUE: i32 = 300;

/// Material value of a bishop.
pub const BISHOP_VALUE: i32 = 350;

/// Material value of a rook.
pub const ROOK_VALUE: i32 = 500;

/// Material value of a queen.
pub const QUEEN_VALUE: i32 = 900;

/// The largest material value of any man.
pub const MAX_PIECE_VALUE: i32 = 900;

/// One of the two players.
#[derive(Clone, Copy, Debug, PartialEq, Eq, Structural)]
pub enum Side {
    White,
    Black,
}

impl Side {
    /// The other player.
    pub open spec fn other(self) -> Side {
        match self {
            Side::White => Side::Black,
            Side::Black => Side::White,
        }
    }

    /// The other player.
    pub fn opponent(self) -> (side: Side)
        ensures
            side == self.other(),
    {
        match self {
            Side::White => Side::Black,
            Side::Black => Side::White,
        }
    }
}

/// The six kinds of chessmen.
#[derive(Clone, Copy, Debug, PartialEq, Eq, Structural)]
pub enum PieceKind {
    Pawn,
    Knight,
    Bishop,
    Rook,
    Queen,
    King,
}

/// The material value of a kind of man, regardless of its owner. The king
/// counts for nothing: both sides always have one.
pub open spec fn value_of(kind: PieceKind) -> int {
    match kind {
        PieceKind::Pawn => 100,
        PieceKind::Knight => 300,
        PieceKind::Bishop => 350,
        PieceKind::Rook => 500,
        PieceKind::Queen => 900,
        PieceKind::King => 0,
    }
}

/// The material value of a kind of man.
pub fn piece_value(kind: PieceKind) -> (value: i32)
    ensures
        value == value_of(kind),
        0 <= value <= MAX_PIECE_VALUE,
{
    match kind {
        PieceKind::Pawn => PAWN_VALUE,
        PieceKind::Knight => KNIGHT_VALUE,
        PieceKind::Bishop => BISHOP_VALUE,
        PieceKind::Rook => ROOK_VALUE,
        PieceKind::Queen => QUEEN_VALUE,
        PieceKind::King => 0,
    }
}

/// A man on the board: what it is and whose it is.
#[derive(Clone, Copy, Debug, PartialEq, Eq, Structural)]
pub struct Man {
    pub kind: PieceKind,
    pub side: Side,
}

impl Man {
    /// What the man is worth to White: its value if it is White's, the
    /// negated value if it is Black's.
    pub open spec fn worth(self) -> int {
        match self.side {
            Side::White => value_of(self.kind),
            Side::Black => -value_of(self.kind),
        }
    }

    /// The same man in the other player's colours.
    pub open spec fn recoloured(self) -> Man {
        Man { kind: self.kind, side: self.side.other() }
    }

    /// What the man is worth to White.
    pub fn signed_value(self) -> (value: i32)
        ensures
            value == self.worth(),
            -MAX_PIECE_VALUE <= value <= MAX_PIECE_VALUE,
    {
        let value: i32 = piece_value(self.kind);
        match self.side {
            Side::White => value,
            Side::Black => -value,
        }
    }

    /// The same man in the other player's colours.
    pub fn swap_side(self) -> (man: Man)
        ensures
            man == self.recoloured(),
    {
        Man { kind: self.kind, side: self.side.opponent() }
    }
}

} // verus!
