//! Moves: a destination and what reaching it means.
use vstd::prelude::*;

use crate::cell::Cell;

verus! {

/// A move of a piece other than a pawn.
#[derive(Clone, Copy, Debug, PartialEq, Eq, Structural)]
pub enum RestMoveType {
    NonCapture,
    Capture,
}

/// A pawn move.
#[derive(Clone, Copy, Debug, PartialEq, Eq, Structural)]
pub enum PawnMoveType {
    NonCapture,
    NormalCapture,
    /// A diagonal step onto an empty cell that takes the enemy pawn on `remove_piece_on`.
    EnPassant { remove_piece_on: Cell },
    NonCapturePromotion,
    CapturePromotion,
}

#[derive(Clone, Copy, Debug, PartialEq, Eq, Structural)]
pub enum MoveType {
    Rest(RestMoveType),
    Pawn(PawnMoveType),
}

impl MoveType {
    /// Whether the move takes a piece on its destination.
    pub open spec fn captures_on_target(self) -> bool {
        match self {
            MoveType::Rest(RestMoveType::Capture) => true,
            MoveType::Pawn(PawnMoveType::NormalCapture) => true,
            MoveType::Pawn(PawnMoveType::CapturePromotion) => true,
            _ => false,
        }
    }
}

#[derive(Clone, Copy, Debug, PartialEq, Eq, Structural)]
pub struct Move {
    pub move_to: Cell,
    pub move_type: MoveType,
}

impl Move {
    pub fn new(move_to: Cell, move_type: MoveType) -> (r: Move)
        ensures
            r == (Move { move_to, move_type }),
    {
        Move { move_to, move_type }
    }
}

} // verus!
