//! A fixed-capacity ordered sequence.
use vstd::prelude::*;

verus! {

/// Errors raised by [`StackVec`].
#[derive(Copy, Clone, Debug, PartialEq, Eq, Structural)]
pub enum StackVecError {
    /// Every slot is taken.
    Full,
}

/// Up to `N` values in insertion order, held in `N` slots of which the first
/// `index` are filled.
pub struct StackVec<T: Copy, const N: usize> {
    /// The slots.
    pub data: [Option<T>; N],
    /// Number of filled slots.
    pub index: usize,
}

impl<T: Copy, const N: usize> StackVec<T, N> {
    /// There are `N` slots; the first `index` are filled and the rest empty.
    pub open spec fn wf(&self) -> bool {
        &&& self.data@.len() == N
        &&& self.index <= N
        &&& forall|i: int| 0 <= i < self.index ==> (#[trigger] self.data@[i]) is Some
        &&& forall|i: int| self.index <= i < N ==> (#[trigger] self.data@[i]) is None
    }

    /// The filled slots' values, in order.
    pub open spec fn values(&self) -> Seq<T> {
        Seq::new(self.index as nat, |i: int| self.data@[i]->0)
    }

    /// An empty sequence.
    pub fn new() -> (r: Self)
        ensures
            r.wf(),
            r.index == 0,
    {
        let data: [Option<T>; N] = [None; N];
        StackVec { data, index: 0 }
    }

    /// Number of values held.
    pub fn _len(&self) -> (r: usize)
        ensures
            r == self.index,
    {
        self.index
    }

    /// The filled slots, in order.
    pub fn data(&self) -> (r: Vec<Option<T>>)
        requires
            self.wf(),
        ensures
            r@ == self.data@.subrange(0, self.index as int),
    {
        let mut out: Vec<Option<T>> = Vec::new();
        let mut i: usize = 0;
        while i < self.index
            invariant
                self.wf(),
                i <= self.index,
                out@ == self.data@.subrange(0, i as int),
            decreases self.index - i,
        {
            out.push(self.data[i]);
            i += 1;
            assert(out@ =~= self.data@.subrange(0, i as int));
        }
        out
    }

    /// Append `entry`, or report `Full` when every slot is taken.
    pub fn push(&mut self, entry: T) -> (r: Result<(), StackVecError>)
        requires
            old(self).wf(),
        ensures
            final(self).wf(),
            match r {
                Ok(()) => old(self).index < N && final(self).values() == old(self).values().push(
                    entry,
                ),
                Err(e) => e == StackVecError::Full && old(self).index == N && final(self).values()
                    == old(self).values(),
            },
    {
        if self.index >= N {
            return Err(StackVecError::Full);
        }
        let ghost before = self.values();
        self.data[self.index] = Some(entry);
        self.index += 1;
        assert(self.values() =~= before.push(entry));
        Ok(())
    }
}

} // verus!
