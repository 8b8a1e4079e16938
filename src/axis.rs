//! Ordered, steppable axes: the values of an axis sit at consecutive
//! ordinals, and a value can step to its neighbours on the axis.
use vstd::prelude::*;

verus! {

/// A value with a position on a linear axis.
pub trait Ordinal: Sized + Copy {
    /// The position of the value on its axis.
    spec fn ordinal(&self) -> int;

    /// The position, as a machine integer.
    fn position(&self) -> (r: isize)
        ensures
            r as int == self.ordinal(),
    ;
}

/// An axis value that may have a successor.
pub trait Sucessor: Ordinal {
    /// Whether the value is the greatest of its axis.
    spec fn is_last(&self) -> bool;

    /// The value one step up the axis, `None` at its end.
    fn next(&self) -> (r: Option<Self>)
        ensures
            r is None <==> self.is_last(),
            r matches Some(n) ==> n.ordinal() == self.ordinal() + 1,
    ;

    /// Nothing lies beyond the last value.
    proof fn lemma_last_is_greatest(a: Self, b: Self)
        requires
            a.is_last(),
        ensures
            b.ordinal() <= a.ordinal(),
    ;
}

/// An axis value that may have a predecessor.
pub trait Predecessor: Ordinal {
    /// Whether the value is the least of its axis.
    spec fn is_first(&self) -> bool;

    /// The value one step down the axis, `None` at its start.
    fn previous(&self) -> (r: Option<Self>)
        ensures
            r is None <==> self.is_first(),
            r matches Some(p) ==> p.ordinal() == self.ordinal() - 1,
    ;
}

impl Ordinal for isize {
    open spec fn ordinal(&self) -> int {
        *self as int
    }

    fn position(&self) -> (r: isize) {
        *self
    }
}

impl Sucessor for isize {
    open spec fn is_last(&self) -> bool {
        *self == isize::MAX
    }

    fn next(&self) -> (r: Option<isize>) {
        self.checked_add(1)
    }

    proof fn lemma_last_is_greatest(a: isize, b: isize) {
    }
}

impl Predecessor for isize {
    open spec fn is_first(&self) -> bool {
        *self == isize::MIN
    }

    fn previous(&self) -> (r: Option<isize>) {
        self.checked_sub(1)
    }
}

} // verus!
