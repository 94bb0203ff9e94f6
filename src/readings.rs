//! A ring buffer of readings: any number can be added, the last `N` are kept.
use vstd::prelude::*;

verus! {

/// Up to `N` readings; when full, the oldest reading makes room for a new one.
#[derive(Clone, Debug, PartialEq, Eq)]
pub struct Readings<T: Copy, const N: usize> {
    values: Vec<T>,
    next: usize,
}

impl<T: Copy, const N: usize> View for Readings<T, N> {
    type V = Seq<T>;

    /// The kept readings, oldest first.
    closed spec fn view(&self) -> Seq<T> {
        if self.values@.len() < N {
            self.values@
        } else {
            self.values@.subrange(self.next as int, N as int) + self.values@.subrange(0, self.next as int)
        }
    }
}

impl<T: Copy, const N: usize> Readings<T, N> {
    /// The readings in the order they are stored.
    pub closed spec fn spec_stored(&self) -> Seq<T> {
        self.values@
    }

    /// At most `N` readings, with the slot of the next one.
    pub closed spec fn wf(&self) -> bool {
        &&& N > 0
        &&& self.values@.len() <= N
        &&& self.next < N
        &&& self.values@.len() < N ==> self.next == self.values@.len()
    }

    /// No readings.
    pub fn new() -> (r: Self)
        requires
            N > 0,
        ensures
            r.wf(),
            r@ == Seq::<T>::empty(),
    {
        Readings { values: Vec::new(), next: 0 }
    }

    /// Add a reading, dropping the oldest one when `N` are kept.
    pub fn push(&mut self, value: T)
        requires
            old(self).wf(),
        ensures
            final(self).wf(),
            old(self)@.len() < N ==> final(self)@ == old(self)@.push(value),
            old(self)@.len() >= N ==> final(self)@ == old(self)@.drop_first().push(value),
    {
        let ghost before = self.values@;
        let ghost at = self.next as int;
        if self.values.len() < N {
            self.values.push(value);
        } else {
            self.values.set(self.next, value);
        }
        self.next = if self.next + 1 == N {
            0
        } else {
            self.next + 1
        };
        proof {
            let after = self.values@;
            if before.len() < N {
                if after.len() == N {
                    assert(self.next == 0);
                    assert(after.subrange(0, N as int) =~= after);
                    assert(after.subrange(0, 0) =~= Seq::<T>::empty());
                    assert(self@ =~= before.push(value));
                } else {
                    assert(self@ =~= before.push(value));
                }
            } else {
                let old_view = before.subrange(at, N as int) + before.subrange(0, at);
                if at + 1 == N {
                    assert(self@ =~= after.subrange(0, N as int) + after.subrange(0, 0));
                    assert(self@ =~= old_view.drop_first().push(value));
                } else {
                    assert(self@ =~= old_view.drop_first().push(value));
                }
            }
        }
    }

    /// The readings in the order they are stored (no order is promised).
    pub fn as_slice(&self) -> (r: &[T])
        ensures
            r@ == self.spec_stored(),
    {
        self.values.as_slice()
    }

    /// The number of readings kept.
    pub fn len(&self) -> (r: usize)
        requires
            self.wf(),
        ensures
            r == self@.len(),
    {
        self.values.len()
    }

    /// The newest reading, if any.
    pub fn last(&self) -> (r: Option<T>)
        requires
            self.wf(),
        ensures
            self@.len() == 0 ==> r is None,
            self@.len() > 0 ==> r == Some(self@.last()),
    {
        if self.values.len() == 0 {
            return None;
        }
        let index = if self.values.len() < N {
            self.values.len() - 1
        } else if self.next == 0 {
            N - 1
        } else {
            self.next - 1
        };
        Some(self.values[index])
    }

    /// Whether no reading is kept.
    pub fn is_empty(&self) -> (r: bool)
        requires
            self.wf(),
        ensures
            r == (self@.len() == 0),
    {
        self.values.len() == 0
    }

    /// The readings, oldest first.
    pub fn as_vec(&self) -> (r: Vec<T>)
        requires
            self.wf(),
        ensures
            r@ == self@,
    {
        let mut out: Vec<T> = Vec::new();
        let len = self.values.len();
        let start = if len < N {
            0
        } else {
            self.next
        };
        let mut i: usize = 0;
        while i < len
            invariant
                self.wf(),
                len == self.values@.len(),
                start == (if len < N { 0 } else { self.next as int }),
                i <= len,
                out@ == self@.subrange(0, i as int),
            decreases len - i,
        {
            let index = if i < len - start {
                start + i
            } else {
                i - (len - start)
            };
            out.push(self.values[index]);
            i += 1;
            proof {
                assert(out@ =~= self@.subrange(0, i as int));
            }
        }
        proof {
            assert(self@.subrange(0, len as int) =~= self@);
        }
        out
    }
}

impl<T: Copy, const N: usize> Default for Readings<T, N> {
    fn default() -> (r: Self)
        ensures
            N > 0 ==> r.wf(),
            r@ == Seq::<T>::empty(),
    {
        Readings { values: Vec::new(), next: 0 }
    }
}

} // verus!
