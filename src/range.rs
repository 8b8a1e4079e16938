//! Ranges over an ordered, steppable axis, walked one value at a time.
use vstd::prelude::*;

use crate::axis::{Ordinal, Sucessor};

verus! {

/// The ordinals `lo, lo + 1, ..., hi - 1`.
pub open spec fn span(lo: int, hi: int) -> Seq<int> {
    if lo >= hi {
        Seq::empty()
    } else {
        Seq::new((hi - lo) as nat, |i: int| lo + i)
    }
}

/// The values from `lo` up to and including `hi`.
pub struct RangeInc<T> {
    lo: T,
    hi: T,
    ended: bool,
}

impl<T: Sucessor> RangeInc<T> {
    /// The next value the range would hand out.
    pub closed spec fn low(&self) -> T {
        self.lo
    }

    /// The last value of the range.
    pub closed spec fn high(&self) -> T {
        self.hi
    }

    pub closed spec fn is_ended(&self) -> bool {
        self.ended
    }

    /// The ordinals still to be handed out, in order.
    pub open spec fn remaining(&self) -> Seq<int> {
        if self.is_ended() {
            Seq::empty()
        } else {
            span(self.low().ordinal(), self.high().ordinal() + 1)
        }
    }

    pub fn new(lo: T, hi: T) -> (r: Self)
        ensures
            r.low() == lo,
            r.high() == hi,
            !r.is_ended(),
            r.remaining() == span(lo.ordinal(), hi.ordinal() + 1),
    {
        RangeInc { lo, hi, ended: false }
    }

    pub fn lo(&self) -> (r: T)
        ensures
            r == self.low(),
    {
        self.lo
    }

    pub fn hi(&self) -> (r: T)
        ensures
            r == self.high(),
    {
        self.hi
    }

    /// The part of `self` that also lies in `rhs`: the greater of the two
    /// starts and the lesser of the two ends.
    pub fn clamp(&self, rhs: RangeInc<T>) -> (r: RangeInc<T>)
        ensures
            r.low() == (if self.low().ordinal() >= rhs.low().ordinal() {
                self.low()
            } else {
                rhs.low()
            }),
            r.high() == (if self.high().ordinal() <= rhs.high().ordinal() {
                self.high()
            } else {
                rhs.high()
            }),
            r.is_ended() == self.is_ended(),
    {
        let lo = if self.lo.position() >= rhs.lo.position() {
            self.lo
        } else {
            rhs.lo
        };
        let hi = if self.hi.position() <= rhs.hi.position() {
            self.hi
        } else {
            rhs.hi
        };
        RangeInc { lo, hi, ended: self.ended }
    }

    /// The number of values from `lo` to `hi`, both included.
    pub fn remaning(&self) -> (r: isize)
        requires
            isize::MIN < self.high().ordinal() - self.low().ordinal() < isize::MAX,
        ensures
            r == self.high().ordinal() - self.low().ordinal() + 1,
    {
        self.hi.position() - self.lo.position() + 1
    }

    /// Whether `val` lies between `lo` and `hi`, both included.
    pub fn contains(&self, val: T) -> (r: bool)
        ensures
            r == (self.low().ordinal() <= val.ordinal() <= self.high().ordinal()),
    {
        self.lo.position() <= val.position() && val.position() <= self.hi.position()
    }

    /// Hands out the next value of the range, or `None` once it is spent.
    pub fn next(&mut self) -> (r: Option<T>)
        ensures
            final(self).high() == old(self).high(),
            match r {
                Some(v) => {
                    &&& old(self).remaining().len() > 0
                    &&& v.ordinal() == old(self).remaining()[0]
                    &&& final(self).remaining() == old(self).remaining().drop_first()
                },
                None => old(self).remaining().len() == 0 && final(self).remaining().len() == 0,
            },
    {
        if self.ended {
            None
        } else if self.lo.position() == self.hi.position() {
            self.ended = true;
            Some(self.lo)
        } else if self.lo.position() > self.hi.position() {
            self.ended = true;
            None
        } else {
            match self.lo.next() {
                None => {
                    proof {
                        T::lemma_last_is_greatest(self.lo, self.hi);
                    }
                    self.ended = true;
                    None
                },
                Some(succ) => {
                    let curr = self.lo;
                    self.lo = succ;
                    proof {
                        assert(self.remaining() =~= old(self).remaining().drop_first());
                    }
                    Some(curr)
                },
            }
        }
    }

    /// All the values still to be handed out, in order.
    pub fn to_vec(self) -> (r: Vec<T>)
        ensures
            r@.map_values(|v: T| v.ordinal()) == self.remaining(),
    {
        let mut range = self;
        let mut out: Vec<T> = Vec::new();
        loop
            invariant
                out@.map_values(|v: T| v.ordinal()) + range.remaining() == self.remaining(),
            decreases range.remaining().len(),
        {
            let ghost before = out@;
            match range.next() {
                Some(v) => {
                    out.push(v);
                    assert(out@.map_values(|v: T| v.ordinal()) =~= before.map_values(
                        |v: T| v.ordinal(),
                    ).push(v.ordinal()));
                },
                None => {
                    assert(out@.map_values(|v: T| v.ordinal()) + range.remaining()
                        =~= out@.map_values(|v: T| v.ordinal()));
                    return out;
                },
            }
        }
    }
}

/// The values from `lo` up to, but not including, `hi`.
pub struct Range<T> {
    lo: T,
    hi: T,
    ended: bool,
}

impl<T: Sucessor> Range<T> {
    pub closed spec fn low(&self) -> T {
        self.lo
    }

    pub closed spec fn high(&self) -> T {
        self.hi
    }

    pub closed spec fn is_ended(&self) -> bool {
        self.ended
    }

    /// The ordinals still to be handed out, in order.
    pub open spec fn remaining(&self) -> Seq<int> {
        if self.is_ended() {
            Seq::empty()
        } else {
            span(self.low().ordinal(), self.high().ordinal())
        }
    }

    pub fn new(lo: T, hi: T) -> (r: Self)
        ensures
            r.low() == lo,
            r.high() == hi,
            !r.is_ended(),
            r.remaining() == span(lo.ordinal(), hi.ordinal()),
    {
        Range { lo, hi, ended: false }
    }

    /// The number of values from `lo` to `hi`, `hi` excluded.
    pub fn remaning(&self) -> (r: isize)
        requires
            isize::MIN <= self.high().ordinal() - self.low().ordinal() <= isize::MAX,
        ensures
            r == self.high().ordinal() - self.low().ordinal(),
    {
        self.hi.position() - self.lo.position()
    }

    /// Hands out the next value of the range, or `None` once it is spent.
    pub fn next(&mut self) -> (r: Option<T>)
        ensures
            final(self).high() == old(self).high(),
            match r {
                Some(v) => {
                    &&& old(self).remaining().len() > 0
                    &&& v.ordinal() == old(self).remaining()[0]
                    &&& final(self).remaining() == old(self).remaining().drop_first()
                },
                None => old(self).remaining().len() == 0 && final(self).remaining().len() == 0,
            },
    {
        if self.ended {
            None
        } else if self.lo.position() >= self.hi.position() {
            self.ended = true;
            None
        } else {
            match self.lo.next() {
                None => {
                    proof {
                        T::lemma_last_is_greatest(self.lo, self.hi);
                    }
                    self.ended = true;
                    None
                },
                Some(succ) => {
                    let curr = self.lo;
                    self.lo = succ;
                    proof {
                        assert(self.remaining() =~= old(self).remaining().drop_first());
                    }
                    Some(curr)
                },
            }
        }
    }

    /// All the values still to be handed out, in order.
    pub fn to_vec(self) -> (r: Vec<T>)
        ensures
            r@.map_values(|v: T| v.ordinal()) == self.remaining(),
    {
        let mut range = self;
        let mut out: Vec<T> = Vec::new();
        loop
            invariant
                out@.map_values(|v: T| v.ordinal()) + range.remaining() == self.remaining(),
            decreases range.remaining().len(),
        {
            let ghost before = out@;
            match range.next() {
                Some(v) => {
                    out.push(v);
                    assert(out@.map_values(|v: T| v.ordinal()) =~= before.map_values(
                        |v: T| v.ordinal(),
                    ).push(v.ordinal()));
                },
                None => {
                    assert(out@.map_values(|v: T| v.ordinal()) + range.remaining()
                        =~= out@.map_values(|v: T| v.ordinal()));
                    return out;
                },
            }
        }
    }
}

} // verus!
