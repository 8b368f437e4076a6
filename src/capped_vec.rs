//! A vector with a fixed capacity, for memory that is set aside once.
use vstd::prelude::*;

verus! {

/// At most `N` items, in the order they were pushed.
pub struct CappedVec<T, const N: usize> {
    items: Vec<T>,
}

impl<T, const N: usize> View for CappedVec<T, N> {
    type V = Seq<T>;

    closed spec fn view(&self) -> Seq<T> {
        self.items@
    }
}

impl<T, const N: usize> CappedVec<T, N> {
    /// The item count never passes the capacity.
    pub closed spec fn wf(&self) -> bool {
        self.items@.len() <= N
    }

    /// An empty vector.
    pub fn new() -> (r: Self)
        ensures
            r.wf(),
            r@ == Seq::<T>::empty(),
    {
        CappedVec { items: Vec::new() }
    }

    /// The number of items.
    pub fn len(&self) -> (r: usize)
        requires
            self.wf(),
        ensures
            r == self@.len(),
            r <= N,
    {
        self.items.len()
    }

    /// Drops every item.
    pub fn clear(&mut self)
        ensures
            final(self).wf(),
            final(self)@ == Seq::<T>::empty(),
    {
        self.items.clear();
    }

    /// Appends `x` where there is room; otherwise fails and keeps the items.
    pub fn try_push(&mut self, x: T) -> (r: Result<(), ()>)
        requires
            old(self).wf(),
        ensures
            final(self).wf(),
            r is Ok <==> old(self)@.len() < N,
            r is Ok ==> final(self)@ == old(self)@.push(x),
            r is Err ==> final(self)@ == old(self)@,
    {
        if self.items.len() < N {
            self.items.push(x);
            Ok(())
        } else {
            Err(())
        }
    }

    /// Appends `x`; there must be room.
    pub fn push(&mut self, x: T)
        requires
            old(self).wf(),
            old(self)@.len() < N,
        ensures
            final(self).wf(),
            final(self)@ == old(self)@.push(x),
    {
        self.items.push(x);
    }

    /// Removes and returns the last item, if any.
    pub fn pop(&mut self) -> (r: Option<T>)
        requires
            old(self).wf(),
        ensures
            final(self).wf(),
            old(self)@.len() == 0 ==> r is None && final(self)@ == old(self)@,
            old(self)@.len() > 0 ==> r == Some(old(self)@.last()) && final(self)@
                == old(self)@.drop_last(),
    {
        self.items.pop()
    }

    /// Replaces item `index`, which must exist, and hands out the new one.
    pub fn write(&mut self, index: usize, value: T) -> (r: &mut T)
        requires
            old(self).wf(),
            index < old(self)@.len(),
        ensures
            *r == value,
            final(self).wf(),
            final(self)@ == old(self)@.update(index as int, *final(r)),
    {
        self.items.set(index, value);
        &mut self.items[index]
    }

    /// Item `index`, which must exist.
    pub fn read(&self, index: usize) -> (r: &T)
        requires
            self.wf(),
            index < self@.len(),
        ensures
            *r == self@[index as int],
    {
        &self.items[index]
    }

    /// The items, in order.
    pub fn iter(&self) -> (r: &[T])
        ensures
            r@ == self@,
    {
        self.items.as_slice()
    }

    /// The first item, if any.
    pub fn first(&self) -> (r: Option<&T>)
        ensures
            self@.len() == 0 ==> r is None,
            self@.len() > 0 ==> r == Some(&self@[0]),
    {
        if self.items.len() > 0 {
            Some(&self.items[0])
        } else {
            None
        }
    }

    /// The last item, if any.
    pub fn last(&self) -> (r: Option<&T>)
        ensures
            self@.len() == 0 ==> r is None,
            self@.len() > 0 ==> r == Some(&self@.last()),
    {
        if self.items.len() > 0 {
            Some(&self.items[self.items.len() - 1])
        } else {
            None
        }
    }

    /// Appends every item of `xs`, in order; there must be room for all.
    pub fn extend(&mut self, xs: Vec<T>)
        requires
            old(self).wf(),
            old(self)@.len() + xs@.len() <= N,
        ensures
            final(self).wf(),
            final(self)@ == old(self)@ + xs@,
    {
        let mut xs = xs;
        let ghost start = self@;
        let ghost orig = xs@;
        while xs.len() > 0
            invariant
                self.wf(),
                self@.len() + xs@.len() <= N,
                start + orig == self@ + xs@,
            decreases xs@.len(),
        {
            let ghost before = xs@;
            let x = xs.remove(0);
            assert(seq![x] + xs@ =~= before);
            assert(self@.push(x) + xs@ =~= self@ + before);
            self.push(x);
        }
        assert(self@ + xs@ =~= self@);
    }
}

} // verus!
