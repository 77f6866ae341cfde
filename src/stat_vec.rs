use vstd::prelude::*;

use vstd::slice::slice_subrange;

verus! {

/// A list of at most `N` items held in storage of fixed size.
pub struct StaticVec<T: Copy, const N: usize> {
    data: Vec<T>,
    len: usize,
}

impl<T: Copy, const N: usize> StaticVec<T, N> {
    pub closed spec fn view(&self) -> Seq<T> {
        self.data@.subrange(0, self.len as int)
    }

    pub closed spec fn wf(&self) -> bool {
        &&& self.data.len() == N
        &&& self.len <= N
    }

    /// An empty list whose storage is filled with `default`.
    pub fn new(default: T) -> (r: Self)
        ensures
            r.wf(),
            r.view().len() == 0,
    {
        let mut data: Vec<T> = Vec::new();
        let mut i: usize = 0;
        while i < N
            invariant
                i <= N,
                data.len() == i,
            decreases N - i,
        {
            data.push(default);
            i = i + 1;
        }
        StaticVec { data, len: 0 }
    }

    /// Appends `item`; the list must have room.
    pub fn push(&mut self, item: T)
        requires
            old(self).wf(),
            old(self).view().len() < N,
        ensures
            final(self).wf(),
            final(self).view() == old(self).view().push(item),
    {
        self.data.set(self.len, item);
        self.len = self.len + 1;
        assert(self.view() =~= old(self).view().push(item));
    }

    pub fn len(&self) -> (r: usize)
        requires
            self.wf(),
        ensures
            r == self.view().len(),
    {
        self.len
    }

    pub fn as_slice(&self) -> (r: &[T])
        requires
            self.wf(),
        ensures
            r@ == self.view(),
    {
        slice_subrange(self.data.as_slice(), 0, self.len)
    }
}

} // verus!
