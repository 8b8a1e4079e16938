//! The pieces and their colours.
use vstd::prelude::*;

verus! {

#[derive(Clone, Copy, Debug, PartialEq, Eq, Structural)]
pub enum Color {
    White,
    Black,
}

impl Color {
    pub fn is_same(&self, other: &Color) -> (r: bool)
        ensures
            r == (*self == *other),
    {
        match (self, other) {
            (Color::White, Color::White) => true,
            (Color::Black, Color::Black) => true,
            _ => false,
        }
    }
}

/// How far through its first move a pawn is.
#[derive(Clone, Copy, Debug, PartialEq, Eq, Structural)]
pub enum PawnFirstMoveState {
    Single,
    Double,
}

/// Where a pawn stands in its life: before its first move, just after it,
/// or later.
#[derive(Clone, Copy, Debug, PartialEq, Eq, Structural)]
pub enum PawnMoveState {
    Before,
    First(PawnFirstMoveState),
    After,
}

#[derive(Clone, Copy, Debug, PartialEq, Eq, Structural)]
pub struct Pawn {
    pub color: Color,
    pub en_passant_state: PawnMoveState,
}

impl Pawn {
    pub fn new(color: Color) -> (r: Pawn)
        ensures
            r.color == color,
            r.en_passant_state == PawnMoveState::Before,
    {
        Pawn { color, en_passant_state: PawnMoveState::Before }
    }

    /// A pawn can be taken en passant right after a double first step.
    pub open spec fn is_en_passant_able(self) -> bool {
        self.en_passant_state == PawnMoveState::First(PawnFirstMoveState::Double)
    }

    pub fn en_passant_able(&self) -> (r: bool)
        ensures
            r == self.is_en_passant_able(),
    {
        match self.en_passant_state {
            PawnMoveState::First(PawnFirstMoveState::Double) => true,
            _ => false,
        }
    }

    /// Records a move of this pawn: its first move is remembered as a single
    /// or a double step; any later move leaves it in `After`.
    pub fn record_advance(&mut self, double: bool)
        ensures
            final(self).color == old(self).color,
            final(self).en_passant_state == (match old(self).en_passant_state {
                PawnMoveState::Before => PawnMoveState::First(
                    if double {
                        PawnFirstMoveState::Double
                    } else {
                        PawnFirstMoveState::Single
                    },
                ),
                _ => PawnMoveState::After,
            }),
    {
        self.en_passant_state = match self.en_passant_state {
            PawnMoveState::Before => PawnMoveState::First(
                if double {
                    PawnFirstMoveState::Double
                } else {
                    PawnFirstMoveState::Single
                },
            ),
            _ => PawnMoveState::After,
        };
    }

    /// Closes the en passant window: once the opponent has answered a first
    /// move, that move counts as an ordinary earlier move.
    pub fn expire_en_passant(&mut self)
        ensures
            final(self).color == old(self).color,
            final(self).en_passant_state == (match old(self).en_passant_state {
                PawnMoveState::First(_) => PawnMoveState::After,
                s => s,
            }),
            !final(self).is_en_passant_able(),
    {
        if let PawnMoveState::First(_) = self.en_passant_state {
            self.en_passant_state = PawnMoveState::After;
        }
    }
}

#[derive(Clone, Copy, Debug, PartialEq, Eq, Structural)]
pub struct Knight {
    pub color: Color,
}

#[derive(Clone, Copy, Debug, PartialEq, Eq, Structural)]
pub struct Bishop {
    pub color: Color,
}

#[derive(Clone, Copy, Debug, PartialEq, Eq, Structural)]
pub struct Rook {
    pub color: Color,
}

#[derive(Clone, Copy, Debug, PartialEq, Eq, Structural)]
pub struct Queen {
    pub color: Color,
}

#[derive(Clone, Copy, Debug, PartialEq, Eq, Structural)]
pub struct King {
    pub color: Color,
}

impl Knight {
    pub fn new(color: Color) -> (r: Knight)
        ensures
            r.color == color,
    {
        Knight { color }
    }
}

impl Bishop {
    pub fn new(color: Color) -> (r: Bishop)
        ensures
            r.color == color,
    {
        Bishop { color }
    }
}

impl Rook {
    pub fn new(color: Color) -> (r: Rook)
        ensures
            r.color == color,
    {
        Rook { color }
    }
}

impl Queen {
    pub fn new(color: Color) -> (r: Queen)
        ensures
            r.color == color,
    {
        Queen { color }
    }
}

impl King {
    pub fn new(color: Color) -> (r: King)
        ensures
            r.color == color,
    {
        King { color }
    }
}

/// The role of a piece, without its colour or state.
#[derive(Clone, Copy, Debug, PartialEq, Eq, Structural)]
pub enum PieceType {
    Bishop,
    King,
    Knight,
    Pawn,
    Queen,
    Rook,
}

/// A piece on the board.
#[derive(Clone, Copy, Debug, PartialEq, Eq, Structural)]
pub enum Piece {
    Pawn(Pawn),
    Knight(Knight),
    Bishop(Bishop),
    Rook(Rook),
    Queen(Queen),
    King(King),
}

impl Piece {
    pub open spec fn color_of(self) -> Color {
        match self {
            Piece::Pawn(p) => p.color,
            Piece::Knight(p) => p.color,
            Piece::Bishop(p) => p.color,
            Piece::Rook(p) => p.color,
            Piece::Queen(p) => p.color,
            Piece::King(p) => p.color,
        }
    }

    pub fn color(&self) -> (r: Color)
        ensures
            r == self.color_of(),
    {
        match self {
            Piece::Pawn(p) => p.color,
            Piece::Knight(p) => p.color,
            Piece::Bishop(p) => p.color,
            Piece::Rook(p) => p.color,
            Piece::Queen(p) => p.color,
            Piece::King(p) => p.color,
        }
    }

    pub fn ty(&self) -> (r: PieceType)
        ensures
            r == (match self {
                Piece::Pawn(_) => PieceType::Pawn,
                Piece::Knight(_) => PieceType::Knight,
                Piece::Bishop(_) => PieceType::Bishop,
                Piece::Rook(_) => PieceType::Rook,
                Piece::Queen(_) => PieceType::Queen,
                Piece::King(_) => PieceType::King,
            }),
    {
        match self {
            Piece::Pawn(_) => PieceType::Pawn,
            Piece::Knight(_) => PieceType::Knight,
            Piece::Bishop(_) => PieceType::Bishop,
            Piece::Rook(_) => PieceType::Rook,
            Piece::Queen(_) => PieceType::Queen,
            Piece::King(_) => PieceType::King,
        }
    }

    /// The letter that marks the piece on the board.
    pub fn mark(&self) -> (r: char)
        ensures
            r == (match self {
                Piece::Pawn(_) => 'P',
                Piece::Knight(_) => 'N',
                Piece::Bishop(_) => 'B',
                Piece::Rook(_) => 'R',
                Piece::Queen(_) => 'Q',
                Piece::King(_) => 'K',
            }),
    {
        match self {
            Piece::Pawn(_) => 'P',
            Piece::Knight(_) => 'N',
            Piece::Bishop(_) => 'B',
            Piece::Rook(_) => 'R',
            Piece::Queen(_) => 'Q',
            Piece::King(_) => 'K',
        }
    }
}

} // verus!
