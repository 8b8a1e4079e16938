//! The eleven ranks, numbered upwards from the white side.
use vstd::prelude::*;

use crate::axis::{Ordinal, Predecessor, Sucessor};

verus! {

#[derive(Clone, Copy, Debug, PartialEq, Eq, Structural, Hash)]
pub enum Rank {
    Rank1,
    Rank2,
    Rank3,
    Rank4,
    Rank5,
    Rank6,
    Rank7,
    Rank8,
    Rank9,
    Rank10,
    Rank11,
}

/// The value at position `i`, for `0 <= i <= 10`.
pub open spec fn rank_at(i: int) -> Rank {
    if i == 0 {
        Rank::Rank1
    } else if i == 1 {
        Rank::Rank2
    } else if i == 2 {
        Rank::Rank3
    } else if i == 3 {
        Rank::Rank4
    } else if i == 4 {
        Rank::Rank5
    } else if i == 5 {
        Rank::Rank6
    } else if i == 6 {
        Rank::Rank7
    } else if i == 7 {
        Rank::Rank8
    } else if i == 8 {
        Rank::Rank9
    } else if i == 9 {
        Rank::Rank10
    } else {
        Rank::Rank11
    }
}

impl Rank {
    /// The position on the axis, from 0 to 10.
    pub open spec fn index(self) -> int {
        match self {
            Rank::Rank1 => 0,
            Rank::Rank2 => 1,
            Rank::Rank3 => 2,
            Rank::Rank4 => 3,
            Rank::Rank5 => 4,
            Rank::Rank6 => 5,
            Rank::Rank7 => 6,
            Rank::Rank8 => 7,
            Rank::Rank9 => 8,
            Rank::Rank10 => 9,
            Rank::Rank11 => 10,
        }
    }

    pub fn index_of(&self) -> (r: u8)
        ensures
            r as int == self.index(),
    {
        match self {
            Rank::Rank1 => 0,
            Rank::Rank2 => 1,
            Rank::Rank3 => 2,
            Rank::Rank4 => 3,
            Rank::Rank5 => 4,
            Rank::Rank6 => 5,
            Rank::Rank7 => 6,
            Rank::Rank8 => 7,
            Rank::Rank9 => 8,
            Rank::Rank10 => 9,
            Rank::Rank11 => 10,
        }
    }

    pub fn from_index(i: u8) -> (r: Rank)
        requires
            i <= 10,
        ensures
            r.index() == i as int,
            r == rank_at(i as int),
    {
        match i {
            0 => Rank::Rank1,
            1 => Rank::Rank2,
            2 => Rank::Rank3,
            3 => Rank::Rank4,
            4 => Rank::Rank5,
            5 => Rank::Rank6,
            6 => Rank::Rank7,
            7 => Rank::Rank8,
            8 => Rank::Rank9,
            9 => Rank::Rank10,
            _ => Rank::Rank11,
        }
    }

    /// The next value up the axis; `None` for the last.
    pub fn succ(&self) -> (r: Option<Rank>)
        ensures
            r is None <==> self.index() == 10,
            r matches Some(s) ==> s.index() == self.index() + 1,
    {
        match self {
            Rank::Rank1 => Some(Rank::Rank2),
            Rank::Rank2 => Some(Rank::Rank3),
            Rank::Rank3 => Some(Rank::Rank4),
            Rank::Rank4 => Some(Rank::Rank5),
            Rank::Rank5 => Some(Rank::Rank6),
            Rank::Rank6 => Some(Rank::Rank7),
            Rank::Rank7 => Some(Rank::Rank8),
            Rank::Rank8 => Some(Rank::Rank9),
            Rank::Rank9 => Some(Rank::Rank10),
            Rank::Rank10 => Some(Rank::Rank11),
            Rank::Rank11 => None,
        }
    }

    /// The next value down the axis; `None` for the first.
    pub fn pred(&self) -> (r: Option<Rank>)
        ensures
            r is None <==> self.index() == 0,
            r matches Some(p) ==> p.index() == self.index() - 1,
    {
        match self {
            Rank::Rank1 => None,
            Rank::Rank2 => Some(Rank::Rank1),
            Rank::Rank3 => Some(Rank::Rank2),
            Rank::Rank4 => Some(Rank::Rank3),
            Rank::Rank5 => Some(Rank::Rank4),
            Rank::Rank6 => Some(Rank::Rank5),
            Rank::Rank7 => Some(Rank::Rank6),
            Rank::Rank8 => Some(Rank::Rank7),
            Rank::Rank9 => Some(Rank::Rank8),
            Rank::Rank10 => Some(Rank::Rank9),
            Rank::Rank11 => Some(Rank::Rank10),
        }
    }

    /// The signed distance from `rhs` to `self` along the axis.
    pub fn sub(self, rhs: Rank) -> (r: isize)
        ensures
            r as int == self.index() - rhs.index(),
    {
        self.index_of() as isize - rhs.index_of() as isize
    }
}

/// Every value sits at a distinct position, from 0 to 10.
pub proof fn lemma_rank_index(a: Rank, b: Rank)
    ensures
        0 <= a.index() <= 10,
        rank_at(a.index()) == a,
        a.index() == b.index() ==> a == b,
{
}

/// The value at a position of the axis has that position.
pub proof fn lemma_rank_at(i: int)
    requires
        0 <= i <= 10,
    ensures
        rank_at(i).index() == i,
{
}

impl Default for Rank {
    /// The centre of the axis.
    fn default() -> (r: Rank)
        ensures
            r.index() == 5,
    {
        Rank::Rank6
    }
}

impl Ordinal for Rank {
    open spec fn ordinal(&self) -> int {
        self.index()
    }

    fn position(&self) -> (r: isize) {
        self.index_of() as isize
    }
}

impl Sucessor for Rank {
    open spec fn is_last(&self) -> bool {
        self.index() == 10
    }

    fn next(&self) -> (r: Option<Rank>) {
        self.succ()
    }

    proof fn lemma_last_is_greatest(a: Self, b: Self) {
    }
}

impl Predecessor for Rank {
    open spec fn is_first(&self) -> bool {
        self.index() == 0
    }

    fn previous(&self) -> (r: Option<Rank>) {
        self.pred()
    }
}

} // verus!
