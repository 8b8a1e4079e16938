//! The board: one entry per cell in play, stored contiguously in file-major
//! order, with each entry's occupant and highlight state.
use vstd::prelude::*;

use crate::cell::{abs, Cell};
use crate::depth::Depth;
use crate::direction::Direction;
use crate::file::{lemma_file_index, File};
use crate::piece::{Bishop, Color, King, Knight, Pawn, PawnMoveState, Piece, Queen, Rook};
use crate::range::{span, Range};
use crate::rank::{lemma_rank_index, Rank};

verus! {

/// The highlight a cell carries while a piece's moves are shown.
#[derive(Clone, Copy, Debug, PartialEq, Eq, Structural)]
pub enum Status {
    Unmarked,
    Capturable,
    Movable,
}

/// How a cell is highlighted: whether the cursor is on it, and its move status.
#[derive(Clone, Copy, Debug, PartialEq, Eq, Structural)]
pub struct HighlightMode {
    pub current: bool,
    pub status: Status,
}

impl HighlightMode {
    pub fn new(current: bool, status: Status) -> (r: HighlightMode)
        ensures
            r == (HighlightMode { current, status }),
    {
        HighlightMode { current, status }
    }

    pub fn current(&self) -> (r: bool)
        ensures
            r == self.current,
    {
        self.current
    }

    pub fn status(&self) -> (r: Status)
        ensures
            r == self.status,
    {
        self.status
    }

    pub fn set_current(&mut self, current: bool)
        ensures
            *final(self) == (HighlightMode { current, ..*old(self) }),
    {
        self.current = current;
    }

    pub fn set_status(&mut self, status: Status)
        ensures
            *final(self) == (HighlightMode { status, ..*old(self) }),
    {
        self.status = status;
    }
}

/// One cell of the board with what stands on it and how it is highlighted.
#[derive(Clone, Copy, Debug, PartialEq, Eq, Structural)]
pub struct Entry {
    pub cell: Cell,
    pub occupant: Option<Piece>,
    pub mode: HighlightMode,
}

impl Entry {
    pub fn new(cell: Cell, occupant: Option<Piece>, mode: HighlightMode) -> (r: Entry)
        ensures
            r == (Entry { cell, occupant, mode }),
    {
        Entry { cell, occupant, mode }
    }

    pub fn is_occupied(&self) -> (r: bool)
        ensures
            r == self.occupant is Some,
    {
        self.occupant.is_some()
    }

    /// The entry with its move status replaced.
    pub open spec fn with_status(self, status: Status) -> Entry {
        Entry { mode: HighlightMode { status, ..self.mode }, ..self }
    }
}

/// The number of cells of the file at offset `x` from the centre on a board
/// of the given radius.
pub open spec fn file_len(radius: int, x: int) -> int {
    2 * radius + 1 - abs(x)
}

/// The number of cells in the files left of offset `x`.
pub open spec fn files_before(radius: int, x: int) -> int
    decreases x + radius,
{
    if x <= -radius {
        0
    } else {
        files_before(radius, x - 1) + file_len(radius, x - 1)
    }
}

/// The number of cells of a board of the given radius.
pub open spec fn cell_count(radius: int) -> int {
    files_before(radius, radius + 1)
}

/// Whether `c` is in play on a board of depth `level`: its file lies within
/// `level - 1` of the centre file, and its rank between the first rank in play
/// and the edge of the hexagon.
pub open spec fn on_board(level: int, c: Cell) -> bool {
    let radius = level - 1;
    &&& abs(c.hex_x()) <= radius
    &&& 5 - radius <= c.rank.index() <= 5 + radius - abs(c.hex_x())
}

/// Where the entry of `c` is stored: after every cell of the files to its
/// left, at its rank's offset from the first rank in play.
pub open spec fn slot(level: int, c: Cell) -> int {
    files_before(level - 1, c.hex_x()) + c.rank.index() - (6 - level)
}

/// The step from `c` in direction `d`, kept only where it lands in play.
pub open spec fn step(level: int, c: Cell, d: Direction) -> Option<Cell> {
    match c.neighbour(d) {
        Some(n) => if on_board(level, n) {
            Some(n)
        } else {
            None
        },
        None => None,
    }
}

/// The centre cell, F6, where the cursor starts.
pub open spec fn centre() -> Cell {
    Cell { rank: Rank::Rank6, file: File::FileF }
}

/// The opening position: white fills the bottom of the board and black
/// mirrors it at the top.
pub open spec fn starting_piece(c: Cell) -> Option<Piece> {
    let x = c.hex_x();
    let r = c.rank.index();
    if abs(x) <= 4 && r == 4 - abs(x) {
        Some(Piece::Pawn(Pawn { color: Color::White, en_passant_state: PawnMoveState::Before }))
    } else if abs(x) <= 4 && r == 6 {
        Some(Piece::Pawn(Pawn { color: Color::Black, en_passant_state: PawnMoveState::Before }))
    } else if x == 0 && r <= 2 {
        Some(Piece::Bishop(Bishop { color: Color::White }))
    } else if x == 0 && r >= 8 {
        Some(Piece::Bishop(Bishop { color: Color::Black }))
    } else if x == 1 && r == 0 {
        Some(Piece::King(King { color: Color::White }))
    } else if x == 1 && r == 9 {
        Some(Piece::King(King { color: Color::Black }))
    } else if x == -1 && r == 0 {
        Some(Piece::Queen(Queen { color: Color::White }))
    } else if x == -1 && r == 9 {
        Some(Piece::Queen(Queen { color: Color::Black }))
    } else if abs(x) == 3 && r == 0 {
        Some(Piece::Rook(Rook { color: Color::White }))
    } else if abs(x) == 3 && r == 7 {
        Some(Piece::Rook(Rook { color: Color::Black }))
    } else if abs(x) == 2 && r == 0 {
        Some(Piece::Knight(Knight { color: Color::White }))
    } else if abs(x) == 2 && r == 8 {
        Some(Piece::Knight(Knight { color: Color::Black }))
    } else {
        None
    }
}

/// The piece that starts on `cell`, if any.
pub fn starting_piece_at(cell: Cell) -> (r: Option<Piece>)
    requires
        cell.is_valid(),
    ensures
        r == starting_piece(cell),
{
    match (cell.file, cell.rank) {
            (File::FileF, Rank::Rank1) => Some(Piece::Bishop(Bishop::new(Color::White))),
            (File::FileF, Rank::Rank2) => Some(Piece::Bishop(Bishop::new(Color::White))),
            (File::FileF, Rank::Rank3) => Some(Piece::Bishop(Bishop::new(Color::White))),
            (File::FileG, Rank::Rank1) => Some(Piece::King(King::new(Color::White))),
            (File::FileE, Rank::Rank1) => Some(Piece::Queen(Queen::new(Color::White))),
            (File::FileC, Rank::Rank1) => Some(Piece::Rook(Rook::new(Color::White))),
            (File::FileI, Rank::Rank1) => Some(Piece::Rook(Rook::new(Color::White))),
            (File::FileD, Rank::Rank1) => Some(Piece::Knight(Knight::new(Color::White))),
            (File::FileH, Rank::Rank1) => Some(Piece::Knight(Knight::new(Color::White))),
            (File::FileB, Rank::Rank1) => Some(Piece::Pawn(Pawn::new(Color::White))),
            (File::FileC, Rank::Rank2) => Some(Piece::Pawn(Pawn::new(Color::White))),
            (File::FileD, Rank::Rank3) => Some(Piece::Pawn(Pawn::new(Color::White))),
            (File::FileE, Rank::Rank4) => Some(Piece::Pawn(Pawn::new(Color::White))),
            (File::FileF, Rank::Rank5) => Some(Piece::Pawn(Pawn::new(Color::White))),
            (File::FileG, Rank::Rank4) => Some(Piece::Pawn(Pawn::new(Color::White))),
            (File::FileH, Rank::Rank3) => Some(Piece::Pawn(Pawn::new(Color::White))),
            (File::FileI, Rank::Rank2) => Some(Piece::Pawn(Pawn::new(Color::White))),
            (File::FileK, Rank::Rank1) => Some(Piece::Pawn(Pawn::new(Color::White))),
            (File::FileF, Rank::Rank9) => Some(Piece::Bishop(Bishop::new(Color::Black))),
            (File::FileF, Rank::Rank10) => Some(Piece::Bishop(Bishop::new(Color::Black))),
            (File::FileF, Rank::Rank11) => Some(Piece::Bishop(Bishop::new(Color::Black))),
            (File::FileG, Rank::Rank10) => Some(Piece::King(King::new(Color::Black))),
            (File::FileE, Rank::Rank10) => Some(Piece::Queen(Queen::new(Color::Black))),
            (File::FileC, Rank::Rank8) => Some(Piece::Rook(Rook::new(Color::Black))),
            (File::FileI, Rank::Rank8) => Some(Piece::Rook(Rook::new(Color::Black))),
            (File::FileD, Rank::Rank9) => Some(Piece::Knight(Knight::new(Color::Black))),
            (File::FileH, Rank::Rank9) => Some(Piece::Knight(Knight::new(Color::Black))),
            (File::FileB, Rank::Rank7) => Some(Piece::Pawn(Pawn::new(Color::Black))),
            (File::FileC, Rank::Rank7) => Some(Piece::Pawn(Pawn::new(Color::Black))),
            (File::FileD, Rank::Rank7) => Some(Piece::Pawn(Pawn::new(Color::Black))),
            (File::FileE, Rank::Rank7) => Some(Piece::Pawn(Pawn::new(Color::Black))),
            (File::FileF, Rank::Rank7) => Some(Piece::Pawn(Pawn::new(Color::Black))),
            (File::FileG, Rank::Rank7) => Some(Piece::Pawn(Pawn::new(Color::Black))),
            (File::FileH, Rank::Rank7) => Some(Piece::Pawn(Pawn::new(Color::Black))),
            (File::FileI, Rank::Rank7) => Some(Piece::Pawn(Pawn::new(Color::Black))),
            (File::FileK, Rank::Rank7) => Some(Piece::Pawn(Pawn::new(Color::Black))),
        _ => None,
    }
}

/// Each file to the left adds at least its own length.
pub proof fn lemma_files_before_grows(radius: int, a: int, b: int)
    requires
        0 <= radius,
        -radius <= a < b,
        b <= radius + 1,
    ensures
        files_before(radius, a) + file_len(radius, a) <= files_before(radius, b),
    decreases b - a,
{
    if a + 1 < b {
        lemma_files_before_grows(radius, a, b - 1);
    }
}

/// The slot of a cell in play lies within its file's block, inside the board.
pub proof fn lemma_slot_bounds(level: int, c: Cell)
    requires
        1 <= level <= 6,
        on_board(level, c),
    ensures
        files_before(level - 1, c.hex_x()) <= slot(level, c),
        slot(level, c) < files_before(level - 1, c.hex_x()) + file_len(level - 1, c.hex_x()),
        0 <= slot(level, c) < cell_count(level - 1),
        c.is_valid(),
{
    let radius = level - 1;
    assert(files_before(radius, c.hex_x()) >= 0) by {
        lemma_files_before_nonneg(radius, c.hex_x());
    }
    if c.hex_x() < radius + 1 {
        lemma_files_before_grows(radius, c.hex_x(), radius + 1);
    }
}

pub proof fn lemma_files_before_nonneg(radius: int, x: int)
    requires
        0 <= radius,
        x <= radius + 1,
    ensures
        files_before(radius, x) >= 0,
    decreases x + radius,
{
    if x > -radius {
        lemma_files_before_nonneg(radius, x - 1);
    }
}

/// Distinct cells in play have distinct slots.
pub proof fn lemma_slot_injective(level: int, a: Cell, b: Cell)
    requires
        1 <= level <= 6,
        on_board(level, a),
        on_board(level, b),
        slot(level, a) == slot(level, b),
    ensures
        a == b,
{
    lemma_slot_bounds(level, a);
    lemma_slot_bounds(level, b);
    if a.hex_x() < b.hex_x() {
        lemma_files_before_grows(level - 1, a.hex_x(), b.hex_x());
    } else if b.hex_x() < a.hex_x() {
        lemma_files_before_grows(level - 1, b.hex_x(), a.hex_x());
    }
    lemma_rank_index(a.rank, b.rank);
    lemma_file_index(a.file, b.file);
}

/// The board of depth six holds exactly 91 cells; a board of radius `k`
/// holds `3k(k + 1) + 1`.
pub proof fn lemma_board_size()
    ensures
        cell_count(0) == 1,
        cell_count(1) == 7,
        cell_count(2) == 19,
        cell_count(3) == 37,
        cell_count(4) == 61,
        cell_count(5) == 91,
{
    reveal_with_fuel(files_before, 12);
}

/// What stands on an entry once the en passant window of `color`'s pawns
/// has closed.
pub open spec fn expired(o: Option<Piece>, color: Color) -> Option<Piece> {
    match o {
        Some(Piece::Pawn(p)) => if p.color == color {
            Some(
                Piece::Pawn(
                    Pawn {
                        en_passant_state: match p.en_passant_state {
                            PawnMoveState::First(_) => PawnMoveState::After,
                            s => s,
                        },
                        ..p
                    },
                ),
            )
        } else {
            o
        },
        _ => o,
    }
}

/// The full board is the whole hexagon: a cell is in play at depth six
/// exactly when it is valid, and such a board holds 91 entries, one for
/// each valid cell, each stored at its slot.
pub proof fn lemma_full_board(b: &Board, c: Cell)
    requires
        b.wf(),
        b.level() == 6,
    ensures
        on_board(6, c) <==> c.is_valid(),
        b.entries().len() == 91,
        c.is_valid() ==> b.entries()[slot(6, c)].cell == c,
        forall|i: int| 0 <= i < b.entries().len() ==> (#[trigger] b.entries()[i]).cell.is_valid(),
{
    lemma_board_size();
    b.lemma_wf();
    if c.is_valid() {
        b.lemma_lookup(c);
    }
    assert forall|i: int| 0 <= i < b.entries().len() implies (#[trigger] b.entries()[i]).cell.is_valid() by {
        lemma_slot_bounds(6, b.entries()[i].cell);
    }
}

/// The board.
pub struct Board {
    inner: Vec<Entry>,
    depth: Depth,
    hide_highlights: bool,
}

impl Board {
    /// The entries, in storage order.
    pub closed spec fn entries(&self) -> Seq<Entry> {
        self.inner@
    }

    /// The board's depth, from 1 to 6.
    pub closed spec fn level(&self) -> int {
        self.depth.level()
    }

    pub closed spec fn hides_highlights(&self) -> bool {
        self.hide_highlights
    }

    /// What stands on each entry, in storage order.
    pub open spec fn occupancy(&self) -> Seq<Option<Piece>> {
        self.entries().map_values(|e: Entry| e.occupant)
    }

    /// Every cell in play has exactly one entry, stored at its slot.
    pub closed spec fn wf(&self) -> bool {
        &&& 1 <= self.depth.level() <= 6
        &&& self.inner@.len() == cell_count(self.depth.level() - 1)
        &&& forall|i: int|
            0 <= i < self.inner@.len() ==> {
                &&& on_board(self.depth.level(), #[trigger] self.inner@[i].cell)
                &&& slot(self.depth.level(), self.inner@[i].cell) == i
            }
    }

    /// The facts a well-formed board offers its users.
    pub proof fn lemma_wf(&self)
        requires
            self.wf(),
        ensures
            1 <= self.level() <= 6,
            self.entries().len() == cell_count(self.level() - 1),
            forall|i: int|
                0 <= i < self.entries().len() ==> {
                    &&& on_board(self.level(), #[trigger] self.entries()[i].cell)
                    &&& slot(self.level(), self.entries()[i].cell) == i
                },
    {
    }

    /// The entry of a cell in play sits at the cell's slot.
    pub proof fn lemma_lookup(&self, c: Cell)
        requires
            self.wf(),
            on_board(self.level(), c),
        ensures
            0 <= slot(self.level(), c) < self.entries().len(),
            self.entries()[slot(self.level(), c)].cell == c,
            c.is_valid(),
    {
        let i = slot(self.level(), c);
        lemma_slot_bounds(self.level(), c);
        lemma_slot_injective(self.level(), c, self.inner@[i].cell);
    }

    /// Replacing entries by entries of the same cells keeps the board well formed.
    proof fn lemma_same_cells(&self, other: &Board)
        requires
            self.wf(),
            other.depth.level() == self.depth.level(),
            other.inner@.len() == self.inner@.len(),
            forall|i: int|
                0 <= i < self.inner@.len() ==> (#[trigger] other.inner@[i]).cell
                    == self.inner@[i].cell,
        ensures
            other.wf(),
    {
        assert forall|i: int| 0 <= i < other.inner@.len() implies {
            &&& on_board(other.depth.level(), #[trigger] other.inner@[i].cell)
            &&& slot(other.depth.level(), other.inner@[i].cell) == i
        } by {
            assert(self.inner@[i].cell == other.inner@[i].cell);
        }
    }

    pub fn depth(&self) -> (r: &Depth)
        ensures
            r.level() == self.level(),
    {
        &self.depth
    }

    pub fn hide_highlights(&self) -> (r: bool)
        ensures
            r == self.hides_highlights(),
    {
        self.hide_highlights
    }

    pub fn len(&self) -> (r: usize)
        ensures
            r == self.entries().len(),
    {
        self.inner.len()
    }

    /// The entry stored at position `i`, for walking the whole board.
    pub fn entry_at(&self, i: usize) -> (r: &Entry)
        requires
            i < self.entries().len(),
        ensures
            *r == self.entries()[i as int],
    {
        &self.inner[i]
    }

    /// Whether `cell` is in play on this board.
    pub fn contains(&self, cell: Cell) -> (r: bool)
        ensures
            r == on_board(self.level(), cell),
    {
        let files = self.depth.file_range();
        if files.contains(cell.file) {
            self.depth.rank_range(cell.file).contains(cell.rank)
        } else {
            false
        }
    }

    /// The storage position of a cell in play: the cells of every file to its
    /// left, then its offset from the first rank.
    pub fn board_index(&self, cell: Cell) -> (r: usize)
        requires
            self.wf(),
            on_board(self.level(), cell),
        ensures
            r as int == slot(self.level(), cell),
    {
        proof {
            lemma_slot_bounds(self.level(), cell);
            lemma_board_size();
        }
        let level = self.depth.level_of();
        let radius: Ghost<int> = Ghost(level - 1);
        let first = self.depth.first_file();
        let mut files = Range::new(first, cell.file);
        let mut acc: usize = 0;
        let ghost mut k: int = first.index();
        loop
            invariant
                5 - radius@ <= k <= cell.file.index(),
                files.remaining() == span(k, cell.file.index()),
                acc as int == files_before(radius@, k - 5),
                radius@ == self.level() - 1,
                self.wf(),
                on_board(self.level(), cell),
                files_before(radius@, cell.hex_x()) <= slot(self.level(), cell),
                slot(self.level(), cell) < cell_count(radius@),
                cell_count(radius@) <= 91,
            ensures
                k == cell.file.index(),
                acc as int == files_before(radius@, cell.hex_x()),
            decreases cell.file.index() - k,
        {
            match files.next() {
                Some(file) => {
                    proof {
                        lemma_files_before_grows(radius@, k - 5, cell.hex_x());
                        lemma_files_before_nonneg(radius@, k - 5);
                    }
                    assert(file.index() == k);
                    let len = self.depth.rank_range(file).remaning();
                    assert(len == file_len(radius@, k - 5));
                    assert(files_before(radius@, k + 1 - 5) == files_before(radius@, k - 5)
                        + file_len(radius@, k - 5));
                    acc = acc + len as usize;
                    proof {
                        k = k + 1;
                    }
                },
                None => {
                    break ;
                },
            }
        }
        acc + (cell.rank.index_of() as usize) - (self.depth.first_rank().index_of() as usize)
    }

    /// The entry of `cell`; `None` where the cell is not in play.
    pub fn get(&self, cell: Cell) -> (r: Option<&Entry>)
        requires
            self.wf(),
        ensures
            r is Some <==> on_board(self.level(), cell),
            r matches Some(e) ==> *e == self.entries()[slot(self.level(), cell)] && e.cell
                == cell,
    {
        if self.contains(cell) {
            proof {
                self.lemma_lookup(cell);
            }
            let i = self.board_index(cell);
            Some(&self.inner[i])
        } else {
            None
        }
    }

    /// What stands on a cell in play.
    pub fn occupant(&self, cell: Cell) -> (r: Option<Piece>)
        requires
            self.wf(),
            on_board(self.level(), cell),
        ensures
            r == self.occupancy()[slot(self.level(), cell)],
    {
        proof {
            self.lemma_lookup(cell);
        }
        let i = self.board_index(cell);
        self.inner[i].occupant
    }

    /// The step from `cell` in `direction`, kept only where it lands in play.
    pub fn next(&self, cell: Cell, direction: Direction) -> (r: Option<Cell>)
        requires
            cell.is_valid(),
        ensures
            r == step(self.level(), cell, direction),
    {
        match cell.next_cell(direction) {
            Some(n) => if self.contains(n) {
                Some(n)
            } else {
                None
            },
            None => None,
        }
    }

    /// Sets the move status shown on a cell in play.
    pub fn set_status(&mut self, cell: Cell, status: Status)
        requires
            old(self).wf(),
            on_board(old(self).level(), cell),
        ensures
            final(self).wf(),
            final(self).level() == old(self).level(),
            final(self).hides_highlights() == old(self).hides_highlights(),
            final(self).entries() == old(self).entries().update(
                slot(old(self).level(), cell),
                old(self).entries()[slot(old(self).level(), cell)].with_status(status),
            ),
    {
        proof {
            self.lemma_lookup(cell);
        }
        let i = self.board_index(cell);
        let mut e = self.inner[i];
        e.mode.status = status;
        let ghost before = *self;
        self.inner.set(i, e);
        proof {
            before.lemma_same_cells(self);
        }
    }

    /// Marks a cell in play as holding the cursor, or not.
    pub fn set_current(&mut self, cell: Cell, current: bool)
        requires
            old(self).wf(),
            on_board(old(self).level(), cell),
        ensures
            final(self).wf(),
            final(self).level() == old(self).level(),
            final(self).hides_highlights() == old(self).hides_highlights(),
            final(self).entries() == old(self).entries().update(
                slot(old(self).level(), cell),
                Entry {
                    mode: HighlightMode {
                        current,
                        ..old(self).entries()[slot(old(self).level(), cell)].mode
                    },
                    ..old(self).entries()[slot(old(self).level(), cell)]
                },
            ),
    {
        proof {
            self.lemma_lookup(cell);
        }
        let i = self.board_index(cell);
        let mut e = self.inner[i];
        e.mode.current = current;
        let ghost before = *self;
        self.inner.set(i, e);
        proof {
            before.lemma_same_cells(self);
        }
    }

    /// Puts `occupant` on a cell in play, replacing what stood there.
    pub fn set_occupant(&mut self, cell: Cell, occupant: Option<Piece>)
        requires
            old(self).wf(),
            on_board(old(self).level(), cell),
        ensures
            final(self).wf(),
            final(self).level() == old(self).level(),
            final(self).hides_highlights() == old(self).hides_highlights(),
            final(self).entries() == old(self).entries().update(
                slot(old(self).level(), cell),
                Entry { occupant, ..old(self).entries()[slot(old(self).level(), cell)] },
            ),
    {
        proof {
            self.lemma_lookup(cell);
        }
        let i = self.board_index(cell);
        let mut e = self.inner[i];
        e.occupant = occupant;
        let ghost before = *self;
        self.inner.set(i, e);
        proof {
            before.lemma_same_cells(self);
        }
    }

    /// A fresh board of the given depth: every cell in play with the cursor
    /// on the centre, nothing highlighted, and the opening position unless
    /// `hide_pieces` is set. Pieces whose starting cell is out of play are
    /// left off.
    pub fn new(depth: Depth, hide_pieces: bool, hide_highlights: bool) -> (r: Board)
        ensures
            r.wf(),
            r.level() == depth.level(),
            r.hides_highlights() == hide_highlights,
            forall|i: int|
                0 <= i < r.entries().len() ==> {
                    &&& (#[trigger] r.entries()[i]).mode == HighlightMode {
                        current: r.entries()[i].cell == centre(),
                        status: Status::Unmarked,
                    }
                    &&& r.entries()[i].occupant == if hide_pieces {
                        None
                    } else {
                        starting_piece(r.entries()[i].cell)
                    }
                },
    {
        let level = depth.level_of();
        let ghost radius = level - 1;
        proof {
            lemma_board_size();
        }
        let mut inner: Vec<Entry> = Vec::new();
        let mut files = depth.file_range();
        let ghost mut k: int = 5 - radius;
        loop
            invariant
                radius == depth.level() - 1,
                radius == level - 1,
                0 <= radius <= 5,
                5 - radius <= k <= 6 + radius,
                files.remaining() == span(k, 6 + radius),
                inner@.len() == files_before(radius, k - 5),
                cell_count(radius) <= 91,
                forall|i: int|
                    0 <= i < inner@.len() ==> {
                        &&& on_board(level as int, #[trigger] inner@[i].cell)
                        &&& slot(level as int, inner@[i].cell) == i
                        &&& inner@[i].mode == HighlightMode {
                            current: inner@[i].cell == centre(),
                            status: Status::Unmarked,
                        }
                        &&& inner@[i].occupant == if hide_pieces {
                            None
                        } else {
                            starting_piece(inner@[i].cell)
                        }
                    },
            ensures
                k == 6 + radius,
                inner@.len() == cell_count(radius),
                forall|i: int|
                    0 <= i < inner@.len() ==> {
                        &&& on_board(level as int, #[trigger] inner@[i].cell)
                        &&& slot(level as int, inner@[i].cell) == i
                        &&& inner@[i].mode == HighlightMode {
                            current: inner@[i].cell == centre(),
                            status: Status::Unmarked,
                        }
                        &&& inner@[i].occupant == if hide_pieces {
                            None
                        } else {
                            starting_piece(inner@[i].cell)
                        }
                    },
            decreases 6 + radius - k,
        {
            match files.next() {
                Some(file) => {
                    let ghost x = k - 5;
                    assert(file.index() == k);
                    proof {
                        lemma_files_before_nonneg(radius, x);
                        lemma_files_before_grows(radius, x, radius + 1);
                    }
                    let mut ranks = depth.rank_range(file);
                    let ghost mut j: int = 5 - radius;
                    loop
                        invariant
                            radius == depth.level() - 1,
                            radius == level - 1,
                            0 <= radius <= 5,
                            file.index() == k,
                            x == k - 5,
                            abs(x) <= radius,
                            5 - radius <= j <= 6 + radius - abs(x),
                            ranks.remaining() == span(j, 6 + radius - abs(x)),
                            inner@.len() == files_before(radius, x) + j - (5 - radius),
                            files_before(radius, x) + file_len(radius, x) <= cell_count(radius),
                            cell_count(radius) <= 91,
                            forall|i: int|
                                0 <= i < inner@.len() ==> {
                                    &&& on_board(level as int, #[trigger] inner@[i].cell)
                                    &&& slot(level as int, inner@[i].cell) == i
                                    &&& inner@[i].mode == HighlightMode {
                                        current: inner@[i].cell == centre(),
                                        status: Status::Unmarked,
                                    }
                                    &&& inner@[i].occupant == if hide_pieces {
                                        None
                                    } else {
                                        starting_piece(inner@[i].cell)
                                    }
                                },
                        ensures
                            j == 6 + radius - abs(x),
                            inner@.len() == files_before(radius, x) + j - (5 - radius),
                            forall|i: int|
                                0 <= i < inner@.len() ==> {
                                    &&& on_board(level as int, #[trigger] inner@[i].cell)
                                    &&& slot(level as int, inner@[i].cell) == i
                                    &&& inner@[i].mode == HighlightMode {
                                        current: inner@[i].cell == centre(),
                                        status: Status::Unmarked,
                                    }
                                    &&& inner@[i].occupant == if hide_pieces {
                                        None
                                    } else {
                                        starting_piece(inner@[i].cell)
                                    }
                                },
                        decreases 6 + radius - abs(x) - j,
                    {
                        match ranks.next() {
                            Some(rank) => {
                                assert(rank.index() == j);
                                let cell = Cell::new(rank, file);
                                let occupant = if hide_pieces {
                                    None
                                } else {
                                    starting_piece_at(cell)
                                };
                                let current = cell == Cell::new(Rank::Rank6, File::FileF);
                                inner.push(
                                    Entry {
                                        cell,
                                        occupant,
                                        mode: HighlightMode { current, status: Status::Unmarked },
                                    },
                                );
                                proof {
                                    j = j + 1;
                                }
                            },
                            None => {
                                break ;
                            },
                        }
                    }
                    proof {
                        k = k + 1;
                    }
                },
                None => {
                    break ;
                },
            }
        }
        Board { inner, depth, hide_highlights }
    }

    /// A board of the given depth with no pieces on it.
    pub fn empty(depth: Depth, hide_highlights: bool) -> (r: Board)
        ensures
            r.wf(),
            r.level() == depth.level(),
            r.hides_highlights() == hide_highlights,
            forall|i: int|
                0 <= i < r.entries().len() ==> {
                    &&& (#[trigger] r.entries()[i]).mode == HighlightMode {
                        current: r.entries()[i].cell == centre(),
                        status: Status::Unmarked,
                    }
                    &&& r.entries()[i].occupant is None
                },
    {
        Board::new(depth, true, hide_highlights)
    }

    /// Closes the en passant window of `color`'s pawns. A pawn that has just
    /// made its double first step may be taken en passant only on the
    /// opponent's next turn; calling this as `color`'s own turn begins again
    /// ends that chance.
    pub fn expire_en_passant(&mut self, color: Color)
        requires
            old(self).wf(),
        ensures
            final(self).wf(),
            final(self).level() == old(self).level(),
            final(self).hides_highlights() == old(self).hides_highlights(),
            final(self).entries().len() == old(self).entries().len(),
            forall|i: int|
                0 <= i < old(self).entries().len() ==> #[trigger] final(self).entries()[i] == (
                Entry { occupant: expired(old(self).entries()[i].occupant, color), ..old(self).entries()[i] }),
    {
        let ghost start = *self;
        let mut i: usize = 0;
        while i < self.inner.len()
            invariant
                start.wf(),
                self.depth == start.depth,
                self.hide_highlights == start.hide_highlights,
                self.inner@.len() == start.inner@.len(),
                i <= self.inner@.len(),
                forall|j: int|
                    0 <= j < self.inner@.len() ==> (#[trigger] self.inner@[j]).cell == start.inner@[j].cell,
                forall|j: int|
                    0 <= j < i ==> #[trigger] self.inner@[j] == (Entry {
                        occupant: expired(start.inner@[j].occupant, color),
                        ..start.inner@[j]
                    }),
                forall|j: int| i <= j < self.inner@.len() ==> #[trigger] self.inner@[j] == start.inner@[j],
            decreases self.inner@.len() - i,
        {
            let mut e = self.inner[i];
            if let Some(Piece::Pawn(mut p)) = e.occupant {
                if p.color.is_same(&color) {
                    p.expire_en_passant();
                    e.occupant = Some(Piece::Pawn(p));
                }
            }
            self.inner.set(i, e);
            i = i + 1;
        }
        proof {
            start.lemma_same_cells(self);
        }
    }
}

} // verus!
