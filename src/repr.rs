//! Doubled hex coordinates as machine integers, for drawing and for
//! measuring displacements between cells.
use vstd::prelude::*;

use crate::cell::{abs, delta_x, delta_y, Cell};
use crate::direction::Direction;
use crate::file::File;
use crate::rank::Rank;

verus! {

/// Why coordinates could not be built.
#[derive(Clone, Copy, Debug, PartialEq, Eq, Structural)]
pub enum ReprError {
    /// `x` and `y` differ in parity, so they name no hex.
    MixedParity { x: isize, y: isize },
}

/// A hex in doubled coordinates: `x` counts files from the centre, `y`
/// half-hex heights; the two always share their parity.
#[derive(Clone, Copy, Debug, PartialEq, Eq, Structural)]
pub struct Repr {
    x: isize,
    y: isize,
}

impl Repr {
    pub closed spec fn xs(&self) -> int {
        self.x as int
    }

    pub closed spec fn ys(&self) -> int {
        self.y as int
    }

    #[verifier::type_invariant]
    spec fn inv(&self) -> bool {
        abs(self.x as int) % 2 == abs(self.y as int) % 2
    }

    pub fn try_new(x: isize, y: isize) -> (r: Result<Repr, ReprError>)
        ensures
            r is Ok <==> abs(x as int) % 2 == abs(y as int) % 2,
            r matches Ok(p) ==> p.xs() == x && p.ys() == y,
            r matches Err(e) ==> e == (ReprError::MixedParity { x, y }),
    {
        if (x % 2 == 0) != (y % 2 == 0) {
            Err(ReprError::MixedParity { x, y })
        } else {
            Ok(Repr { x, y })
        }
    }

    pub fn new(x: isize, y: isize) -> (r: Repr)
        requires
            abs(x as int) % 2 == abs(y as int) % 2,
        ensures
            r.xs() == x && r.ys() == y,
    {
        Repr { x, y }
    }

    pub fn x(&self) -> (r: isize)
        ensures
            r == self.xs(),
    {
        self.x
    }

    pub fn y(&self) -> (r: isize)
        ensures
            r == self.ys(),
    {
        self.y
    }

    /// The coordinates of a cell.
    pub fn from_cell(cell: Cell) -> (r: Repr)
        ensures
            r.xs() == cell.hex_x(),
            r.ys() == cell.hex_y(),
    {
        let x = cell.file.sub(File::FileF);
        let ax = if x < 0 {
            -x
        } else {
            x
        };
        let y = ax + cell.rank.sub(Rank::Rank6) * 2;
        Repr { x, y }
    }

    /// The hex one step away in `direction`, with no bound on the board.
    pub fn next(&self, direction: Direction) -> (r: Repr)
        requires
            isize::MIN <= self.xs() + delta_x(direction) <= isize::MAX,
            isize::MIN <= self.ys() + delta_y(direction) <= isize::MAX,
        ensures
            r.xs() == self.xs() + delta_x(direction),
            r.ys() == self.ys() + delta_y(direction),
    {
        proof {
            use_type_invariant(self);
        }
        let (x, y) = match direction {
            Direction::Clock1 => (self.x + 1, self.y + 3),
            Direction::Clock2 => (self.x + 1, self.y + 1),
            Direction::Clock3 => (self.x + 2, self.y),
            Direction::Clock4 => (self.x + 1, self.y - 1),
            Direction::Clock5 => (self.x + 1, self.y - 3),
            Direction::Clock6 => (self.x, self.y - 2),
            Direction::Clock7 => (self.x - 1, self.y - 3),
            Direction::Clock8 => (self.x - 1, self.y - 1),
            Direction::Clock9 => (self.x - 2, self.y),
            Direction::Clock10 => (self.x - 1, self.y + 1),
            Direction::Clock11 => (self.x - 1, self.y + 3),
            Direction::Clock12 => (self.x, self.y + 2),
        };
        Repr { x, y }
    }

    /// The displacement from `rhs` to `self`.
    pub fn sub(self, rhs: Repr) -> (r: (isize, isize))
        requires
            isize::MIN <= self.xs() - rhs.xs() <= isize::MAX,
            isize::MIN <= self.ys() - rhs.ys() <= isize::MAX,
        ensures
            r.0 == self.xs() - rhs.xs(),
            r.1 == self.ys() - rhs.ys(),
    {
        (self.x - rhs.x, self.y - rhs.y)
    }
}

} // verus!
