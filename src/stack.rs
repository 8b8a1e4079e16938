//! A fixed-capacity stack stored in an array.
use vstd::array::*;
use vstd::prelude::*;

verus! {

/// A stack of at most `N` values. The array holds the values in the order
/// they were pushed; `ptr` is the position of the top, `None` when empty.
#[derive(Debug)]
pub struct Stack<T, const N: usize> {
    inner: [T; N],
    ptr: Option<usize>,
}

impl<T, const N: usize> Stack<T, N> {
    #[verifier::type_invariant]
    spec fn inv(&self) -> bool {
        self.ptr matches Some(p) ==> p < N
    }
}

impl<T: Copy, const N: usize> Stack<T, N> {
    /// Every slot of the array, in order.
    pub closed spec fn slots(&self) -> Seq<T> {
        self.inner@
    }

    /// The values on the stack, bottom first.
    pub closed spec fn items(&self) -> Seq<T> {
        match self.ptr {
            None => Seq::empty(),
            Some(p) => self.inner@.take(p + 1),
        }
    }

    /// The facts every stack offers.
    pub fn capacity(&self) -> (r: usize)
        ensures
            r == N,
            self.items().len() <= N,
            self.slots().len() == N,
            self.items() == self.slots().take(self.items().len() as int),
    {
        proof {
            use_type_invariant(self);
        }
        N
    }

    /// An empty stack whose unused slots hold `fill`.
    pub fn new(fill: T) -> (r: Self)
        ensures
            r.items() == Seq::<T>::empty(),
    {
        Stack { inner: array_fill_for_copy_types(fill), ptr: None }
    }

    /// The position the next pushed value takes.
    fn pos_to_add(&self) -> (r: usize)
        ensures
            r == self.items().len(),
    {
        proof {
            use_type_invariant(self);
        }
        match self.ptr {
            None => 0,
            Some(t) => t + 1,
        }
    }

    /// Takes the next slot onto the stack as it stands.
    pub fn incr(&mut self)
        requires
            old(self).items().len() < N,
        ensures
            final(self).slots() == old(self).slots(),
            final(self).items() == old(self).items().push(old(self).slots()[old(self).items().len() as int]),
    {
        proof {
            use_type_invariant(&*self);
        }
        let pos = self.pos_to_add();
        self.ptr = Some(pos);
        assert(self.items() =~= old(self).items().push(old(self).slots()[pos as int]));
    }

    /// Drops the top of the stack.
    pub fn decr(&mut self)
        requires
            old(self).items().len() > 0,
        ensures
            final(self).slots() == old(self).slots(),
            final(self).items() == old(self).items().drop_last(),
    {
        proof {
            use_type_invariant(&*self);
        }
        self.ptr = match self.ptr {
            Some(0) => None,
            Some(t) => Some(t - 1),
            None => None,
        };
        assert(self.items() =~= old(self).items().drop_last());
    }

    pub fn push(&mut self, val: T)
        requires
            old(self).items().len() < N,
        ensures
            final(self).items() == old(self).items().push(val),
            final(self).slots() == old(self).slots().update(old(self).items().len() as int, val),
    {
        proof {
            use_type_invariant(&*self);
        }
        let pos = self.pos_to_add();
        self.inner[pos] = val;
        let ghost mid = *self;
        assert(mid.items() =~= old(self).items());
        self.incr();
        assert(self.items() =~= old(self).items().push(val));
    }

    pub fn pop(&mut self) -> (r: Option<T>)
        ensures
            final(self).slots() == old(self).slots(),
            old(self).items().len() == 0 ==> r is None && final(self).items() == old(self).items(),
            old(self).items().len() > 0 ==> r == Some(old(self).items().last()) && final(self).items()
                == old(self).items().drop_last(),
    {
        proof {
            use_type_invariant(&*self);
        }
        let pos = match self.ptr {
            Some(pos) => pos,
            None => return None,
        };
        let ret = self.inner[pos];
        self.decr();
        Some(ret)
    }

    /// The top of the stack.
    pub fn current(&self) -> (r: Option<T>)
        ensures
            self.items().len() == 0 ==> r is None,
            self.items().len() > 0 ==> r == Some(self.items().last()),
    {
        proof {
            use_type_invariant(self);
        }
        match self.ptr {
            Some(pos) => Some(self.inner[pos]),
            None => None,
        }
    }
}

} // verus!
