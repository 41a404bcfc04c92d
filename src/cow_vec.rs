use vstd::prelude::*;

verus! {

/// A vector of exactly `N` elements that either borrows caller-owned storage
/// or owns its own. Any write first promotes a borrowed vector to an owned
/// copy, so the borrowed source is never modified.
#[derive(Clone, Copy)]
pub enum StaticCowVec<'a, T, const N: usize> {
    Borrowed(&'a [T; N]),
    Owned([T; N]),
}

impl<'a, T, const N: usize> View for StaticCowVec<'a, T, N> {
    type V = Seq<T>;

    open spec fn view(&self) -> Seq<T> {
        match self {
            StaticCowVec::Borrowed(a) => a@,
            StaticCowVec::Owned(a) => a@,
        }
    }
}

impl<'a, T: Copy, const N: usize> StaticCowVec<'a, T, N> {
    /// An owned vector whose every element is `v`.
    pub fn filled(v: T) -> (r: Self)
        ensures
            r is Owned,
            r@.len() == N,
            forall|i: int| 0 <= i < N ==> r@[i] == v,
    {
        StaticCowVec::Owned([v; N])
    }

    /// An owned vector of zeros: every element is the scalar's default value.
    pub fn zeros() -> (r: Self)
        where T: Default,
        ensures
            r is Owned,
            r@.len() == N,
            forall|i: int| 0 <= i < N ==> call_ensures(T::default, (), r@[i]),
    {
        Self::filled(T::default())
    }

    /// A vector that takes ownership of `a`.
    pub fn from_array(a: [T; N]) -> (r: Self)
        ensures
            r is Owned,
            r@ == a@,
    {
        StaticCowVec::Owned(a)
    }

    /// A vector that borrows `a` without copying it.
    pub fn from_ref(a: &'a [T; N]) -> (r: Self)
        ensures
            r is Borrowed,
            r@ == a@,
    {
        StaticCowVec::Borrowed(a)
    }

    /// The number of elements, which is always `N`.
    pub fn len(&self) -> (r: usize)
        ensures
            r == N,
            r == self@.len(),
    {
        N
    }

    /// Whether the storage is borrowed from the caller.
    pub fn is_borrowed(&self) -> (r: bool)
        ensures
            r == self is Borrowed,
    {
        match self {
            StaticCowVec::Borrowed(_) => true,
            StaticCowVec::Owned(_) => false,
        }
    }

    /// Whether the storage is owned.
    pub fn is_owned(&self) -> (r: bool)
        ensures
            r == self is Owned,
    {
        match self {
            StaticCowVec::Borrowed(_) => false,
            StaticCowVec::Owned(_) => true,
        }
    }

    /// A copy of all `N` elements.
    pub fn to_array(&self) -> (r: [T; N])
        ensures
            r@ == self@,
    {
        match self {
            StaticCowVec::Borrowed(a) => **a,
            StaticCowVec::Owned(a) => *a,
        }
    }

    /// The elements as a slice, for handing to bulk routines.
    pub fn as_slice(&self) -> (r: &[T])
        ensures
            r@ == self@,
    {
        match self {
            StaticCowVec::Borrowed(a) => a.as_slice(),
            StaticCowVec::Owned(a) => a.as_slice(),
        }
    }

    /// The elements as a mutable slice, for bulk routines that write. A
    /// borrowed vector is first promoted to an owned copy.
    pub fn as_mut_slice(&mut self) -> (r: &mut [T])
        ensures
            r@ == old(self)@,
            *final(self) is Owned,
            final(self)@ == final(r)@,
    {
        self.make_owned();
        match self {
            StaticCowVec::Owned(a) => a,
            StaticCowVec::Borrowed(_) => {
                proof {
                    assert(false);
                }
                unreached()
            }
        }
    }

    /// Promotes a borrowed vector to an owned copy of the same elements; an
    /// owned vector is left as it is.
    pub fn make_owned(&mut self)
        ensures
            *final(self) is Owned,
            final(self)@ == old(self)@,
            *old(self) is Owned ==> *final(self) == *old(self),
    {
        if let StaticCowVec::Borrowed(a) = self {
            *self = StaticCowVec::Owned(**a);
        }
    }

    /// Checked access: `None` exactly when `i` is out of range.
    pub fn get(&self, i: usize) -> (r: Option<&T>)
        ensures
            i < N ==> r == Some(&self@[i as int]),
            i >= N ==> r is None,
    {
        if i < N {
            Some(self.get_unchecked(i))
        } else {
            None
        }
    }

    /// Access without a bound check; the caller must keep `i` below `N`.
    pub fn get_unchecked(&self, i: usize) -> (r: &T)
        requires
            i < N,
        ensures
            *r == self@[i as int],
    {
        match self {
            StaticCowVec::Borrowed(a) => &a[i],
            StaticCowVec::Owned(a) => &a[i],
        }
    }

    /// Mutable access without a bound check. A borrowed vector is first
    /// promoted to an owned copy, so the borrowed source stays untouched.
    pub fn get_unchecked_mut(&mut self, i: usize) -> (r: &mut T)
        requires
            i < N,
        ensures
            *r == old(self)@[i as int],
            *final(self) is Owned,
            final(self)@ == old(self)@.update(i as int, *final(r)),
    {
        self.make_owned();
        match self {
            StaticCowVec::Owned(a) => &mut a[i],
            StaticCowVec::Borrowed(_) => {
                proof { assert(false); }
                unreached()
            }
        }
    }

    /// Writes `v` at offset `i` when it is in range; returns whether it was.
    pub fn set(&mut self, i: usize, v: T) -> (r: bool)
        ensures
            r == (i < N),
            r ==> *final(self) is Owned && final(self)@ == old(self)@.update(i as int, v),
            !r ==> *final(self) == *old(self),
    {
        if i < N {
            *self.get_unchecked_mut(i) = v;
            true
        } else {
            false
        }
    }
}

} // verus!
