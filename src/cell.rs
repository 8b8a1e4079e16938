//! Cells of the hexagonal board and the step from a cell to its neighbour.
//!
//! A cell is named by its rank and file. For geometry it is read in doubled
//! hex coordinates centred on F6: `x` is the file's offset from the centre
//! file, `y` counts half-hex heights, so that edge neighbours differ by
//! `(0, ±2)` or `(±1, ±1)`. The board is the hexagon `|x| <= 5`,
//! `|y| <= 10 - |x|`, and `x + y` is always even.
use vstd::prelude::*;

use crate::direction::Direction;
use crate::file::{file_at, lemma_file_index, File};
use crate::rank::{lemma_rank_index, rank_at, Rank};

verus! {

pub open spec fn abs(i: int) -> int {
    if i < 0 {
        -i
    } else {
        i
    }
}

/// Whether rank index `r` and file index `f` name a cell of the hexagon:
/// each rank keeps the files within `10 - r` of the centre file.
pub open spec fn valid_indices(r: int, f: int) -> bool {
    0 <= r <= 10 && 0 <= f <= 10 && r + abs(f - 5) <= 10
}

/// Whether `(x, y)` in doubled hex coordinates lies on the board.
pub open spec fn on_grid(x: int, y: int) -> bool {
    abs(x) <= 5 && abs(y) <= 10 - abs(x) && (x + y) % 2 == 0
}

/// The cell at `(x, y)` in doubled hex coordinates.
pub open spec fn cell_at(x: int, y: int) -> Cell {
    Cell { rank: rank_at((y - abs(x)) / 2 + 5), file: file_at(x + 5) }
}

/// The displacement of one step in direction `d`, in doubled hex coordinates.
pub open spec fn delta_x(d: Direction) -> int {
    match d {
        Direction::Clock1 => 1,
        Direction::Clock2 => 1,
        Direction::Clock3 => 2,
        Direction::Clock4 => 1,
        Direction::Clock5 => 1,
        Direction::Clock6 => 0,
        Direction::Clock7 => -1,
        Direction::Clock8 => -1,
        Direction::Clock9 => -2,
        Direction::Clock10 => -1,
        Direction::Clock11 => -1,
        Direction::Clock12 => 0,
    }
}

pub open spec fn delta_y(d: Direction) -> int {
    match d {
        Direction::Clock1 => 3,
        Direction::Clock2 => 1,
        Direction::Clock3 => 0,
        Direction::Clock4 => -1,
        Direction::Clock5 => -3,
        Direction::Clock6 => -2,
        Direction::Clock7 => -3,
        Direction::Clock8 => -1,
        Direction::Clock9 => 0,
        Direction::Clock10 => 1,
        Direction::Clock11 => 3,
        Direction::Clock12 => 2,
    }
}

/// Why a cell could not be built.
#[derive(Clone, Copy, Debug, PartialEq, Eq, Structural)]
pub enum CellError {
    /// The rank and file lie outside the hexagonal outline.
    InvalidCoordinate { rank: Rank, file: File },
}

/// One hex of the board.
#[derive(Clone, Copy, Debug, PartialEq, Eq, Structural, Hash)]
pub struct Cell {
    pub rank: Rank,
    pub file: File,
}

impl Cell {
    /// Whether the cell lies within the hexagonal outline.
    pub open spec fn is_valid(self) -> bool {
        valid_indices(self.rank.index(), self.file.index())
    }

    pub open spec fn hex_x(self) -> int {
        self.file.index() - 5
    }

    pub open spec fn hex_y(self) -> int {
        abs(self.hex_x()) + 2 * (self.rank.index() - 5)
    }

    /// The cell one step away in direction `d`, if that step stays on the board.
    pub open spec fn neighbour(self, d: Direction) -> Option<Cell> {
        let x = self.hex_x() + delta_x(d);
        let y = self.hex_y() + delta_y(d);
        if on_grid(x, y) {
            Some(cell_at(x, y))
        } else {
            None
        }
    }

    pub fn try_new(rank: Rank, file: File) -> (r: Result<Cell, CellError>)
        ensures
            r is Ok <==> valid_indices(rank.index(), file.index()),
            r matches Ok(c) ==> c.rank == rank && c.file == file,
            r matches Err(e) ==> e == (CellError::InvalidCoordinate { rank, file }),
    {
        let f = file.index_of();
        let ok = match rank {
            Rank::Rank7 => f < 10 && f > 0,
            Rank::Rank8 => f < 9 && f > 1,
            Rank::Rank9 => f < 8 && f > 2,
            Rank::Rank10 => f < 7 && f > 3,
            Rank::Rank11 => f < 6 && f > 4,
            _ => true,
        };
        if ok {
            Ok(Cell { rank, file })
        } else {
            Err(CellError::InvalidCoordinate { rank, file })
        }
    }

    pub fn new(rank: Rank, file: File) -> (r: Cell)
        requires
            valid_indices(rank.index(), file.index()),
        ensures
            r.rank == rank && r.file == file,
    {
        Cell { rank, file }
    }

    /// The neighbouring cell in `direction`, or `None` where the step
    /// would leave the board.
    pub fn next_cell(&self, direction: Direction) -> (r: Option<Cell>)
        requires
            self.is_valid(),
        ensures
            r == self.neighbour(direction),
    {
        let f = self.file.index_of() as i8;
        let rk = self.rank.index_of() as i8;
        let (df, dr) = step_offsets(direction, f);
        let nf = f + df;
        let nr = rk + dr;
        proof {
            let x = self.hex_x() + delta_x(direction);
            let y = self.hex_y() + delta_y(direction);
            assert(y == abs(x) + 2 * (nr - 5));
            assert((y - abs(x)) / 2 + 5 == nr);
            assert(on_grid(x, y) <==> (0 <= nf <= 10 && 0 <= nr <= 10 && valid_indices(
                nr as int,
                nf as int,
            )));
        }
        if nf < 0 || nf > 10 || nr < 0 || nr > 10 {
            return None;
        }
        match Cell::try_new(Rank::from_index(nr as u8), File::from_index(nf as u8)) {
            Ok(c) => Some(c),
            Err(_) => None,
        }
    }
}

/// The file and rank offsets of one step in `direction` from a cell on file
/// index `f`. The rank offset of a sideways step depends on the side of the
/// centre file the step starts from and lands on.
fn step_offsets(direction: Direction, f: i8) -> (r: (i8, i8))
    requires
        0 <= f <= 10,
    ensures
        r.0 == delta_x(direction),
        abs(f + r.0 - 5) + 2 * r.1 == abs(f - 5) + delta_y(direction),
        -2 <= r.1 <= 2,
{
    let left = f < 5;
    let right = f > 5;
    match direction {
        Direction::Clock1 => (1, if left { 2 } else { 1 }),
        Direction::Clock2 => (1, if left { 1 } else { 0 }),
        Direction::Clock3 => (2, if f == 4 { 0 } else if left { 1 } else { -1 }),
        Direction::Clock4 => (1, if left { 0 } else { -1 }),
        Direction::Clock5 => (1, if left { -1 } else { -2 }),
        Direction::Clock6 => (0, -1),
        Direction::Clock7 => (-1, if right { -1 } else { -2 }),
        Direction::Clock8 => (-1, if right { 0 } else { -1 }),
        Direction::Clock9 => (-2, if f == 6 { 0 } else if right { 1 } else { -1 }),
        Direction::Clock10 => (-1, if right { 1 } else { 0 }),
        Direction::Clock11 => (-1, if right { 2 } else { 1 }),
        Direction::Clock12 => (0, 1),
    }
}

/// A valid cell is the cell at its own hex coordinates, which lie on the board.
pub proof fn lemma_cell_at_hex(c: Cell)
    requires
        c.is_valid(),
    ensures
        on_grid(c.hex_x(), c.hex_y()),
        cell_at(c.hex_x(), c.hex_y()) == c,
{
    lemma_rank_index(c.rank, c.rank);
    lemma_file_index(c.file, c.file);
    assert((c.hex_y() - abs(c.hex_x())) / 2 + 5 == c.rank.index());
}

/// A cell built from on-board hex coordinates is valid and has those coordinates.
pub proof fn lemma_hex_of_cell_at(x: int, y: int)
    requires
        on_grid(x, y),
    ensures
        cell_at(x, y).is_valid(),
        cell_at(x, y).hex_x() == x,
        cell_at(x, y).hex_y() == y,
{
    let r = (y - abs(x)) / 2 + 5;
    assert(y - abs(x) == 2 * (r - 5));
    lemma_rank_index(rank_at(r), rank_at(r));
    lemma_file_index(file_at(x + 5), file_at(x + 5));
    crate::rank::lemma_rank_at(r);
    crate::file::lemma_file_at(x + 5);
}

/// Stepping back in the reverse direction returns to the starting cell.
pub proof fn lemma_direction_round_trip(c: Cell, d: Direction)
    requires
        c.is_valid(),
        c.neighbour(d) is Some,
    ensures
        c.neighbour(d).unwrap().is_valid(),
        c.neighbour(d).unwrap().neighbour(d.reversed()) == Some(c),
{
    let n = c.neighbour(d).unwrap();
    lemma_hex_of_cell_at(c.hex_x() + delta_x(d), c.hex_y() + delta_y(d));
    lemma_cell_at_hex(c);
    assert(delta_x(d.reversed()) == -delta_x(d) && delta_y(d.reversed()) == -delta_y(d));
}

} // verus!
