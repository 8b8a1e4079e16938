//! The depth of the board: how many rings of hexes around the centre are in play.
use vstd::prelude::*;

use crate::cell::abs;
use crate::file::File;
use crate::range::RangeInc;
use crate::rank::Rank;

verus! {

/// Why a depth could not be built.
#[derive(Clone, Copy, Debug, PartialEq, Eq, Structural)]
pub enum DepthError {
    /// The depth lies outside `1..=6`.
    OutOfRange { found: u8 },
}

/// The board's depth, from 1 (the centre hex alone) to 6 (all 91 hexes).
#[derive(Clone, Copy, Debug)]
pub struct Depth {
    level: u8,
}

impl Depth {
    pub closed spec fn level(&self) -> int {
        self.level as int
    }

    /// The number of rings around the centre hex.
    pub open spec fn radius(&self) -> int {
        self.level() - 1
    }

    #[verifier::type_invariant]
    spec fn inv(&self) -> bool {
        1 <= self.level <= 6
    }

    pub fn new(raw: u8) -> (r: Result<Depth, DepthError>)
        ensures
            r is Ok <==> 1 <= raw <= 6,
            r matches Ok(d) ==> d.level() == raw,
            r matches Err(e) ==> e == (DepthError::OutOfRange { found: raw }),
    {
        if 1 <= raw && raw <= 6 {
            Ok(Depth { level: raw })
        } else {
            Err(DepthError::OutOfRange { found: raw })
        }
    }

    pub fn level_of(&self) -> (r: u8)
        ensures
            r as int == self.level(),
            1 <= r <= 6,
    {
        proof {
            use_type_invariant(self);
        }
        self.level
    }

    /// The files in play: the centre file and `radius` files on each side.
    pub fn file_range(&self) -> (r: RangeInc<File>)
        ensures
            r.low().index() == 5 - self.radius(),
            r.high().index() == 5 + self.radius(),
            r.remaining() == crate::range::span(5 - self.radius(), 6 + self.radius()),
    {
        proof {
            use_type_invariant(self);
        }
        RangeInc::new(self.first_file(), File::from_index(5 + self.level - 1))
    }

    /// The ranks in play on `file`: from the first rank up to the edge of the
    /// hexagon, which comes down one rank per file away from the centre.
    pub fn rank_range(&self, file: File) -> (r: RangeInc<Rank>)
        requires
            abs(file.index() - 5) <= self.radius(),
        ensures
            r.low().index() == 5 - self.radius(),
            r.high().index() == 5 + self.radius() - abs(file.index() - 5),
            r.remaining() == crate::range::span(
                5 - self.radius(),
                6 + self.radius() - abs(file.index() - 5),
            ),
    {
        proof {
            use_type_invariant(self);
        }
        let x = file.index_of() as i8 - 5;
        let ax = if x < 0 {
            -x
        } else {
            x
        };
        RangeInc::new(self.first_rank(), Rank::from_index((4 + self.level as i8 - ax) as u8))
    }

    pub fn first_file(&self) -> (r: File)
        ensures
            r.index() == 5 - self.radius(),
    {
        proof {
            use_type_invariant(self);
        }
        match self.level {
            1 => File::FileF,
            2 => File::FileE,
            3 => File::FileD,
            4 => File::FileC,
            5 => File::FileB,
            _ => File::FileA,
        }
    }

    pub fn first_rank(&self) -> (r: Rank)
        ensures
            r.index() == 5 - self.radius(),
    {
        proof {
            use_type_invariant(self);
        }
        match self.level {
            1 => Rank::Rank6,
            2 => Rank::Rank5,
            3 => Rank::Rank4,
            4 => Rank::Rank3,
            5 => Rank::Rank2,
            _ => Rank::Rank1,
        }
    }
}

} // verus!
