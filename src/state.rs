//! The interaction state: the cursor, whose turn it is, and which piece's
//! moves are being shown.
//!
//! Showing moves marks each destination as movable or capturable (and, for
//! en passant, the pawn taken as capturable); hiding them recomputes the
//! same moves and unmarks exactly those cells. Moving the cursor leaves an
//! open preview in place.
use vstd::prelude::*;

use crate::board::{cell_count, centre, lemma_slot_bounds, on_board, slot, Board, Entry, Status};
use crate::cell::Cell;
use crate::direction::Direction;
use crate::movegen::{all_in_play, in_play, lemma_moves_in_play, piece_moves};
use crate::moves::{Move, MoveType, PawnMoveType};

verus! {

/// The status a move gives its destination.
pub open spec fn mark_of(m: Move) -> Status {
    if m.move_type.captures_on_target() {
        Status::Capturable
    } else {
        Status::Movable
    }
}

/// `entries` with the status of `c`'s entry replaced.
pub open spec fn set_status_at(level: int, entries: Seq<Entry>, c: Cell, s: Status) -> Seq<Entry> {
    entries.update(slot(level, c), entries[slot(level, c)].with_status(s))
}

/// The highlights of `moves`, written in order over `entries`.
pub open spec fn marked(level: int, entries: Seq<Entry>, moves: Seq<Move>) -> Seq<Entry>
    decreases moves.len(),
{
    if moves.len() == 0 {
        entries
    } else {
        let m = moves.last();
        let e = set_status_at(level, marked(level, entries, moves.drop_last()), m.move_to, mark_of(m));
        match m.move_type {
            MoveType::Pawn(PawnMoveType::EnPassant { remove_piece_on }) => set_status_at(
                level,
                e,
                remove_piece_on,
                Status::Capturable,
            ),
            _ => e,
        }
    }
}

/// `entries` with every cell that `moves` highlights unmarked again.
pub open spec fn cleared(level: int, entries: Seq<Entry>, moves: Seq<Move>) -> Seq<Entry>
    decreases moves.len(),
{
    if moves.len() == 0 {
        entries
    } else {
        let m = moves.last();
        let e = set_status_at(
            level,
            cleared(level, entries, moves.drop_last()),
            m.move_to,
            Status::Unmarked,
        );
        match m.move_type {
            MoveType::Pawn(PawnMoveType::EnPassant { remove_piece_on }) => set_status_at(
                level,
                e,
                remove_piece_on,
                Status::Unmarked,
            ),
            _ => e,
        }
    }
}

/// Whether one of `moves` highlights the entry at position `i`.
pub open spec fn touched(level: int, moves: Seq<Move>, i: int) -> bool
    decreases moves.len(),
{
    if moves.len() == 0 {
        false
    } else {
        let m = moves.last();
        ||| touched(level, moves.drop_last(), i)
        ||| slot(level, m.move_to) == i
        ||| (m.move_type matches MoveType::Pawn(PawnMoveType::EnPassant { remove_piece_on })
            && slot(level, remove_piece_on) == i)
    }
}

/// The moves shown for the piece on `c`, read from the board's entries.
pub open spec fn moves_at(level: int, entries: Seq<Entry>, c: Cell) -> Seq<Move> {
    match entries[slot(level, c)].occupant {
        Some(p) => piece_moves(level, entries.map_values(|e: Entry| e.occupant), p, c),
        None => Seq::empty(),
    }
}

/// What toggling the preview does to the entries and to the shown cell: an
/// open preview of `cell` is closed and its highlights cleared; otherwise
/// the moves of the piece under the cursor are shown, if it has any.
pub open spec fn toggle_effect(
    level: int,
    entries: Seq<Entry>,
    displaying: Option<Cell>,
    current: Cell,
) -> (Seq<Entry>, Option<Cell>) {
    match displaying {
        Some(cell) => (cleared(level, entries, moves_at(level, entries, cell)), None),
        None => {
            let moves = moves_at(level, entries, current);
            if moves.len() > 0 {
                (marked(level, entries, moves), Some(current))
            } else {
                (entries, None)
            }
        },
    }
}

/// Marking changes only statuses, and only of the entries the moves touch.
pub proof fn lemma_marked_pointwise(level: int, entries: Seq<Entry>, moves: Seq<Move>)
    requires
        1 <= level <= 6,
        entries.len() == cell_count(level - 1),
        all_in_play(level, moves),
    ensures
        marked(level, entries, moves).len() == entries.len(),
        forall|i: int|
            0 <= i < entries.len() ==> #[trigger] marked(level, entries, moves)[i] == if touched(
                level,
                moves,
                i,
            ) {
                entries[i].with_status(marked(level, entries, moves)[i].mode.status)
            } else {
                entries[i]
            },
    decreases moves.len(),
{
    if moves.len() > 0 {
        let init = moves.drop_last();
        assert(all_in_play(level, init)) by {
            assert forall|j: int| 0 <= j < init.len() implies in_play(level, #[trigger] init[j]) by {
                assert(init[j] == moves[j]);
            }
        }
        lemma_marked_pointwise(level, entries, init);
        let m = moves.last();
        assert(in_play(level, moves[moves.len() - 1]));
        lemma_slot_bounds(level, m.move_to);
        if let MoveType::Pawn(PawnMoveType::EnPassant { remove_piece_on }) = m.move_type {
            lemma_slot_bounds(level, remove_piece_on);
        }
    }
}

/// Clearing unmarks exactly the entries the moves touch.
pub proof fn lemma_cleared_pointwise(level: int, entries: Seq<Entry>, moves: Seq<Move>)
    requires
        1 <= level <= 6,
        entries.len() == cell_count(level - 1),
        all_in_play(level, moves),
    ensures
        cleared(level, entries, moves).len() == entries.len(),
        forall|i: int|
            0 <= i < entries.len() ==> #[trigger] cleared(level, entries, moves)[i] == if touched(
                level,
                moves,
                i,
            ) {
                entries[i].with_status(Status::Unmarked)
            } else {
                entries[i]
            },
    decreases moves.len(),
{
    if moves.len() > 0 {
        let init = moves.drop_last();
        assert(all_in_play(level, init)) by {
            assert forall|j: int| 0 <= j < init.len() implies in_play(level, #[trigger] init[j]) by {
                assert(init[j] == moves[j]);
            }
        }
        lemma_cleared_pointwise(level, entries, init);
        let m = moves.last();
        assert(in_play(level, moves[moves.len() - 1]));
        lemma_slot_bounds(level, m.move_to);
        if let MoveType::Pawn(PawnMoveType::EnPassant { remove_piece_on }) = m.move_type {
            lemma_slot_bounds(level, remove_piece_on);
        }
    }
}

/// Marking leaves what stands on the board as it was.
pub proof fn lemma_marked_keeps_occupancy(level: int, entries: Seq<Entry>, moves: Seq<Move>)
    requires
        1 <= level <= 6,
        entries.len() == cell_count(level - 1),
        all_in_play(level, moves),
    ensures
        marked(level, entries, moves).map_values(|e: Entry| e.occupant) == entries.map_values(
            |e: Entry| e.occupant,
        ),
{
    lemma_marked_pointwise(level, entries, moves);
    assert(marked(level, entries, moves).map_values(|e: Entry| e.occupant) =~= entries.map_values(
        |e: Entry| e.occupant,
    ));
}

/// Clearing leaves what stands on the board as it was.
pub proof fn lemma_cleared_keeps_occupancy(level: int, entries: Seq<Entry>, moves: Seq<Move>)
    requires
        1 <= level <= 6,
        entries.len() == cell_count(level - 1),
        all_in_play(level, moves),
    ensures
        cleared(level, entries, moves).map_values(|e: Entry| e.occupant) == entries.map_values(
            |e: Entry| e.occupant,
        ),
{
    lemma_cleared_pointwise(level, entries, moves);
    assert(cleared(level, entries, moves).map_values(|e: Entry| e.occupant) =~= entries.map_values(
        |e: Entry| e.occupant,
    ));
}

/// Toggling the preview twice on the same cursor, starting with nothing
/// shown and nothing highlighted, gives back exactly the entries it started
/// from, and again shows nothing.
pub proof fn lemma_toggle_twice(level: int, entries: Seq<Entry>, current: Cell)
    requires
        1 <= level <= 6,
        entries.len() == cell_count(level - 1),
        on_board(level, current),
        forall|i: int| 0 <= i < entries.len() ==> (#[trigger] entries[i]).mode.status == Status::Unmarked,
    ensures
        ({
            let (first, shown) = toggle_effect(level, entries, None, current);
            let (second, after) = toggle_effect(level, first, shown, current);
            second == entries && after is None
        }),
{
    lemma_slot_bounds(level, current);
    let moves = moves_at(level, entries, current);
    if let Some(p) = entries[slot(level, current)].occupant {
        lemma_moves_in_play(level, entries.map_values(|e: Entry| e.occupant), p, current);
    }
    if moves.len() > 0 {
        let first = marked(level, entries, moves);
        lemma_marked_pointwise(level, entries, moves);
        lemma_marked_keeps_occupancy(level, entries, moves);
        assert(first[slot(level, current)].occupant == entries[slot(level, current)].occupant);
        assert(moves_at(level, first, current) == moves);
        lemma_cleared_pointwise(level, first, moves);
        assert(cleared(level, first, moves) =~= entries);
    }
}

/// Toggling twice also restores an open preview of the piece under the
/// cursor, shown over a board with no other highlights.
pub proof fn lemma_toggle_twice_from_preview(level: int, base: Seq<Entry>, current: Cell)
    requires
        1 <= level <= 6,
        base.len() == cell_count(level - 1),
        on_board(level, current),
        forall|i: int| 0 <= i < base.len() ==> (#[trigger] base[i]).mode.status == Status::Unmarked,
        moves_at(level, base, current).len() > 0,
    ensures
        ({
            let shown = marked(level, base, moves_at(level, base, current));
            let (first, after_first) = toggle_effect(level, shown, Some(current), current);
            let (second, after_second) = toggle_effect(level, first, after_first, current);
            second == shown && after_second == Some(current)
        }),
{
    lemma_slot_bounds(level, current);
    let moves = moves_at(level, base, current);
    let p = base[slot(level, current)].occupant.unwrap();
    lemma_moves_in_play(level, base.map_values(|e: Entry| e.occupant), p, current);
    let shown = marked(level, base, moves);
    lemma_marked_pointwise(level, base, moves);
    lemma_marked_keeps_occupancy(level, base, moves);
    assert(shown[slot(level, current)].occupant == base[slot(level, current)].occupant);
    assert(moves_at(level, shown, current) == moves);
    lemma_cleared_pointwise(level, shown, moves);
    assert(cleared(level, shown, moves) =~= base);
}

/// Whose turn it is.
#[derive(Clone, Copy, Debug, PartialEq, Eq, Structural)]
pub enum Turn {
    White,
    Black,
}

impl Turn {
    pub fn toggle(&self) -> (r: Turn)
        ensures
            r != *self,
    {
        match self {
            Turn::White => Turn::Black,
            Turn::Black => Turn::White,
        }
    }
}

pub struct State {
    turn: Turn,
    current: Cell,
    displaying_valid_moves: Option<Cell>,
}

impl State {
    pub closed spec fn turn(&self) -> Turn {
        self.turn
    }

    /// The cell under the cursor.
    pub closed spec fn current(&self) -> Cell {
        self.current
    }

    /// The cell whose piece's moves are shown, if any.
    pub closed spec fn displaying(&self) -> Option<Cell> {
        self.displaying_valid_moves
    }

    /// The state agrees with the board it drives.
    pub open spec fn wf(&self, board: &Board) -> bool {
        &&& board.wf()
        &&& on_board(board.level(), self.current())
        &&& (self.displaying() matches Some(c) ==> on_board(board.level(), c))
    }

    /// White to move, the cursor on the centre, nothing shown.
    pub fn new() -> (r: State)
        ensures
            r.turn() == Turn::White,
            r.current() == centre(),
            r.displaying() is None,
    {
        State {
            turn: Turn::White,
            current: Cell::new(crate::rank::Rank::Rank6, crate::file::File::FileF),
            displaying_valid_moves: None,
        }
    }

    pub fn current_cell(&self) -> (r: Cell)
        ensures
            r == self.current(),
    {
        self.current
    }

    pub fn displaying_valid_moves(&self) -> (r: Option<Cell>)
        ensures
            r == self.displaying(),
    {
        self.displaying_valid_moves
    }

    pub fn turn_of(&self) -> (r: Turn)
        ensures
            r == self.turn(),
    {
        self.turn
    }

    /// Passes the turn to the other side.
    pub fn toggle(&mut self)
        ensures
            final(self).turn() != old(self).turn(),
            final(self).current() == old(self).current(),
            final(self).displaying() == old(self).displaying(),
    {
        self.turn = self.turn.toggle()
    }

    /// Moves the cursor to `cell`.
    pub fn set_current(&mut self, board: &mut Board, cell: Cell)
        requires
            old(self).wf(old(board)),
            on_board(old(board).level(), cell),
        ensures
            final(self).wf(final(board)),
            final(self).current() == cell,
            final(self).turn() == old(self).turn(),
            final(self).displaying() == old(self).displaying(),
            final(board).level() == old(board).level(),
            final(board).hides_highlights() == old(board).hides_highlights(),
            final(board).entries().len() == old(board).entries().len(),
            forall|i: int|
                0 <= i < old(board).entries().len() ==> {
                    &&& (#[trigger] final(board).entries()[i]).cell == old(board).entries()[i].cell
                    &&& final(board).entries()[i].occupant == old(board).entries()[i].occupant
                    &&& final(board).entries()[i].mode.status == old(
                        board,
                    ).entries()[i].mode.status
                    &&& final(board).entries()[i].mode.current == if old(
                        board,
                    ).entries()[i].cell == cell {
                        true
                    } else if old(board).entries()[i].cell == old(self).current() {
                        false
                    } else {
                        old(board).entries()[i].mode.current
                    }
                },
    {
        let current_cell = self.current;
        proof {
            board.lemma_wf();
            board.lemma_lookup(cell);
            board.lemma_lookup(current_cell);
        }
        board.set_current(current_cell, false);
        board.set_current(cell, true);
        proof {
            board.lemma_wf();
        }
        self.current = cell;
    }

    /// Moves the cursor one step in `direction`; a step out of play leaves it where it is.
    pub fn move_current(&mut self, board: &mut Board, direction: Direction)
        requires
            old(self).wf(old(board)),
        ensures
            final(self).wf(final(board)),
            final(self).current() == match crate::board::step(
                old(board).level(),
                old(self).current(),
                direction,
            ) {
                Some(n) => n,
                None => old(self).current(),
            },
            final(self).displaying() == old(self).displaying(),
            final(self).turn() == old(self).turn(),
            final(board).level() == old(board).level(),
            final(board).hides_highlights() == old(board).hides_highlights(),
            final(board).occupancy() == old(board).occupancy(),
            crate::board::step(old(board).level(), old(self).current(), direction) is None
                ==> final(board).entries() == old(board).entries(),
            crate::board::step(old(board).level(), old(self).current(), direction) matches Some(n)
                ==> {
                &&& final(board).entries().len() == old(board).entries().len()
                &&& forall|i: int|
                    0 <= i < old(board).entries().len() ==> {
                        &&& (#[trigger] final(board).entries()[i]).cell == old(
                            board,
                        ).entries()[i].cell
                        &&& final(board).entries()[i].occupant == old(board).entries()[i].occupant
                        &&& final(board).entries()[i].mode.status == old(
                            board,
                        ).entries()[i].mode.status
                        &&& final(board).entries()[i].mode.current == if old(
                            board,
                        ).entries()[i].cell == n {
                            true
                        } else if old(board).entries()[i].cell == old(self).current() {
                            false
                        } else {
                            old(board).entries()[i].mode.current
                        }
                    }
            },
    {
        proof {
            board.lemma_lookup(self.current);
        }
        let next = board.next(self.current, direction);
        if let Some(next) = next {
            proof {
                crate::movegen::lemma_step_progress(board.level(), self.current, direction);
            }
            let ghost before = board.occupancy();
            self.set_current(board, next);
            assert(board.occupancy() =~= before);
        }
    }

    /// Writes the highlights of `moves` onto the board, or clears them.
    fn apply_moves(board: &mut Board, moves: &Vec<Move>, show: bool)
        requires
            old(board).wf(),
            all_in_play(old(board).level(), moves@),
        ensures
            final(board).wf(),
            final(board).level() == old(board).level(),
            final(board).hides_highlights() == old(board).hides_highlights(),
            final(board).entries() == if show {
                marked(old(board).level(), old(board).entries(), moves@)
            } else {
                cleared(old(board).level(), old(board).entries(), moves@)
            },
    {
        let ghost level = board.level();
        let ghost start = board.entries();
        let mut i: usize = 0;
        assert(moves@.take(0) =~= Seq::<Move>::empty());
        while i < moves.len()
            invariant
                board.wf(),
                board.level() == level,
                board.hides_highlights() == old(board).hides_highlights(),
                start == old(board).entries(),
                all_in_play(level, moves@),
                i <= moves.len(),
                board.entries() == if show {
                    marked(level, start, moves@.take(i as int))
                } else {
                    cleared(level, start, moves@.take(i as int))
                },
            decreases moves.len() - i,
        {
            let m = moves[i];
            assert(in_play(level, moves@[i as int]));
            assert(moves@.take(i + 1).drop_last() =~= moves@.take(i as int));
            let status = if !show {
                Status::Unmarked
            } else {
                match m.move_type {
                    MoveType::Rest(crate::moves::RestMoveType::Capture) => Status::Capturable,
                    MoveType::Pawn(PawnMoveType::NormalCapture) => Status::Capturable,
                    MoveType::Pawn(PawnMoveType::CapturePromotion) => Status::Capturable,
                    _ => Status::Movable,
                }
            };
            board.set_status(m.move_to, status);
            if let MoveType::Pawn(PawnMoveType::EnPassant { remove_piece_on }) = m.move_type {
                let taken = if show {
                    Status::Capturable
                } else {
                    Status::Unmarked
                };
                board.set_status(remove_piece_on, taken);
            }
            i = i + 1;
        }
        assert(moves@.take(moves@.len() as int) =~= moves@);
    }

    /// Clears the highlights of the moves of the piece on `cell` and closes the preview.
    fn hide_valid_moves(&mut self, cell: Cell, board: &mut Board)
        requires
            old(self).wf(old(board)),
            on_board(old(board).level(), cell),
        ensures
            final(self).wf(final(board)),
            final(self).current() == old(self).current(),
            final(self).turn() == old(self).turn(),
            final(self).displaying() is None,
            final(board).level() == old(board).level(),
            final(board).hides_highlights() == old(board).hides_highlights(),
            final(board).entries() == cleared(
                old(board).level(),
                old(board).entries(),
                moves_at(old(board).level(), old(board).entries(), cell),
            ),
    {
        proof {
            board.lemma_wf();
            board.lemma_lookup(cell);
        }
        if let Some(occupant) = board.occupant(cell) {
            let moves = occupant.valid_moves(board, cell);
            proof {
                lemma_moves_in_play(board.level(), board.occupancy(), occupant, cell);
            }
            State::apply_moves(board, &moves, false);
        }
        self.displaying_valid_moves = None;
    }

    /// Highlights the moves of the piece under the cursor; the preview opens
    /// only if there is at least one.
    fn show_valid_moves(&mut self, board: &mut Board)
        requires
            old(self).wf(old(board)),
            old(self).displaying() is None,
        ensures
            final(self).wf(final(board)),
            final(self).current() == old(self).current(),
            final(self).turn() == old(self).turn(),
            final(board).level() == old(board).level(),
            final(board).hides_highlights() == old(board).hides_highlights(),
            (final(board).entries(), final(self).displaying()) == toggle_effect(
                old(board).level(),
                old(board).entries(),
                None,
                old(self).current(),
            ),
    {
        proof {
            board.lemma_wf();
            board.lemma_lookup(self.current);
        }
        let current = self.current;
        if let Some(occupant) = board.occupant(current) {
            let moves = occupant.valid_moves(board, current);
            proof {
                lemma_moves_in_play(board.level(), board.occupancy(), occupant, current);
            }
            State::apply_moves(board, &moves, true);
            self.displaying_valid_moves = if moves.len() > 0 {
                Some(current)
            } else {
                None
            };
        }
    }

    /// Shows the moves of the piece under the cursor, or closes the preview
    /// that is open.
    pub fn toggle_valid_moves(&mut self, board: &mut Board)
        requires
            old(self).wf(old(board)),
        ensures
            final(self).wf(final(board)),
            final(self).current() == old(self).current(),
            final(self).turn() == old(self).turn(),
            final(board).level() == old(board).level(),
            final(board).hides_highlights() == old(board).hides_highlights(),
            final(board).occupancy() == old(board).occupancy(),
            (final(board).entries(), final(self).displaying()) == toggle_effect(
                old(board).level(),
                old(board).entries(),
                old(self).displaying(),
                old(self).current(),
            ),
    {
        proof {
            board.lemma_wf();
        }
        let ghost level = board.level();
        let ghost start = board.entries();
        match self.displaying_valid_moves {
            Some(cell) => {
                proof {
                    board.lemma_lookup(cell);
                    if let Some(p) = start[slot(level, cell)].occupant {
                        lemma_moves_in_play(level, board.occupancy(), p, cell);
                        lemma_cleared_keeps_occupancy(level, start, moves_at(level, start, cell));
                    }
                }
                self.hide_valid_moves(cell, board);
            },
            None => {
                proof {
                    board.lemma_lookup(self.current);
                    if let Some(p) = start[slot(level, self.current)].occupant {
                        lemma_moves_in_play(level, board.occupancy(), p, self.current);
                        lemma_marked_keeps_occupancy(
                            level,
                            start,
                            moves_at(level, start, self.current),
                        );
                    }
                }
                self.show_valid_moves(board);
            },
        }
    }
}

} // verus!
