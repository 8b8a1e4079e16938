//! The eleven files, lettered from left to right; the letter J is not used.
use vstd::prelude::*;

use crate::axis::{Ordinal, Predecessor, Sucessor};
use crate::cell::abs;
use crate::range::RangeInc;
use crate::rank::Rank;

verus! {

#[derive(Clone, Copy, Debug, PartialEq, Eq, Structural, Hash)]
pub enum File {
    FileA,
    FileB,
    FileC,
    FileD,
    FileE,
    FileF,
    FileG,
    FileH,
    FileI,
    FileK,
    FileL,
}

/// The value at position `i`, for `0 <= i <= 10`.
pub open spec fn file_at(i: int) -> File {
    if i == 0 {
        File::FileA
    } else if i == 1 {
        File::FileB
    } else if i == 2 {
        File::FileC
    } else if i == 3 {
        File::FileD
    } else if i == 4 {
        File::FileE
    } else if i == 5 {
        File::FileF
    } else if i == 6 {
        File::FileG
    } else if i == 7 {
        File::FileH
    } else if i == 8 {
        File::FileI
    } else if i == 9 {
        File::FileK
    } else {
        File::FileL
    }
}

impl File {
    /// The position on the axis, from 0 to 10.
    pub open spec fn index(self) -> int {
        match self {
            File::FileA => 0,
            File::FileB => 1,
            File::FileC => 2,
            File::FileD => 3,
            File::FileE => 4,
            File::FileF => 5,
            File::FileG => 6,
            File::FileH => 7,
            File::FileI => 8,
            File::FileK => 9,
            File::FileL => 10,
        }
    }

    pub fn index_of(&self) -> (r: u8)
        ensures
            r as int == self.index(),
    {
        match self {
            File::FileA => 0,
            File::FileB => 1,
            File::FileC => 2,
            File::FileD => 3,
            File::FileE => 4,
            File::FileF => 5,
            File::FileG => 6,
            File::FileH => 7,
            File::FileI => 8,
            File::FileK => 9,
            File::FileL => 10,
        }
    }

    pub fn from_index(i: u8) -> (r: File)
        requires
            i <= 10,
        ensures
            r.index() == i as int,
            r == file_at(i as int),
    {
        match i {
            0 => File::FileA,
            1 => File::FileB,
            2 => File::FileC,
            3 => File::FileD,
            4 => File::FileE,
            5 => File::FileF,
            6 => File::FileG,
            7 => File::FileH,
            8 => File::FileI,
            9 => File::FileK,
            _ => File::FileL,
        }
    }

    /// The next value up the axis; `None` for the last.
    pub fn succ(&self) -> (r: Option<File>)
        ensures
            r is None <==> self.index() == 10,
            r matches Some(s) ==> s.index() == self.index() + 1,
    {
        match self {
            File::FileA => Some(File::FileB),
            File::FileB => Some(File::FileC),
            File::FileC => Some(File::FileD),
            File::FileD => Some(File::FileE),
            File::FileE => Some(File::FileF),
            File::FileF => Some(File::FileG),
            File::FileG => Some(File::FileH),
            File::FileH => Some(File::FileI),
            File::FileI => Some(File::FileK),
            File::FileK => Some(File::FileL),
            File::FileL => None,
        }
    }

    /// The next value down the axis; `None` for the first.
    pub fn pred(&self) -> (r: Option<File>)
        ensures
            r is None <==> self.index() == 0,
            r matches Some(p) ==> p.index() == self.index() - 1,
    {
        match self {
            File::FileA => None,
            File::FileB => Some(File::FileA),
            File::FileC => Some(File::FileB),
            File::FileD => Some(File::FileC),
            File::FileE => Some(File::FileD),
            File::FileF => Some(File::FileE),
            File::FileG => Some(File::FileF),
            File::FileH => Some(File::FileG),
            File::FileI => Some(File::FileH),
            File::FileK => Some(File::FileI),
            File::FileL => Some(File::FileK),
        }
    }

    /// The ranks of this file on the full board: from the first rank up to
    /// the rim of the hexagon, one rank lower for each file away from the
    /// centre.
    pub fn rank_range(&self) -> (r: RangeInc<Rank>)
        ensures
            r.low().index() == 0,
            r.high().index() == 10 - abs(self.index() - 5),
            r.remaining() == crate::range::span(0, 11 - abs(self.index() - 5)),
    {
        match self {
            File::FileA => RangeInc::new(Rank::Rank1, Rank::Rank6),
            File::FileB => RangeInc::new(Rank::Rank1, Rank::Rank7),
            File::FileC => RangeInc::new(Rank::Rank1, Rank::Rank8),
            File::FileD => RangeInc::new(Rank::Rank1, Rank::Rank9),
            File::FileE => RangeInc::new(Rank::Rank1, Rank::Rank10),
            File::FileF => RangeInc::new(Rank::Rank1, Rank::Rank11),
            File::FileG => RangeInc::new(Rank::Rank1, Rank::Rank10),
            File::FileH => RangeInc::new(Rank::Rank1, Rank::Rank9),
            File::FileI => RangeInc::new(Rank::Rank1, Rank::Rank8),
            File::FileK => RangeInc::new(Rank::Rank1, Rank::Rank7),
            File::FileL => RangeInc::new(Rank::Rank1, Rank::Rank6),
        }
    }

    /// The signed distance from `rhs` to `self` along the axis.
    pub fn sub(self, rhs: File) -> (r: isize)
        ensures
            r as int == self.index() - rhs.index(),
    {
        self.index_of() as isize - rhs.index_of() as isize
    }
}

/// Every value sits at a distinct position, from 0 to 10.
pub proof fn lemma_file_index(a: File, b: File)
    ensures
        0 <= a.index() <= 10,
        file_at(a.index()) == a,
        a.index() == b.index() ==> a == b,
{
}

/// The value at a position of the axis has that position.
pub proof fn lemma_file_at(i: int)
    requires
        0 <= i <= 10,
    ensures
        file_at(i).index() == i,
{
}

impl Default for File {
    /// The centre of the axis.
    fn default() -> (r: File)
        ensures
            r.index() == 5,
    {
        File::FileF
    }
}

impl Ordinal for File {
    open spec fn ordinal(&self) -> int {
        self.index()
    }

    fn position(&self) -> (r: isize) {
        self.index_of() as isize
    }
}

impl Sucessor for File {
    open spec fn is_last(&self) -> bool {
        self.index() == 10
    }

    fn next(&self) -> (r: Option<File>) {
        self.succ()
    }

    proof fn lemma_last_is_greatest(a: Self, b: Self) {
    }
}

impl Predecessor for File {
    open spec fn is_first(&self) -> bool {
        self.index() == 0
    }

    fn previous(&self) -> (r: Option<File>) {
        self.pred()
    }
}

} // verus!
