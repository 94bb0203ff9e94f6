//! A byte container with a fixed capacity, shared by packet data, raw packets and raw frames.
use vstd::prelude::*;

verus! {

/// Up to `CAP` bytes, kept in order.
#[derive(Clone, Debug, PartialEq, Eq, Hash)]
pub struct Bounded<const CAP: usize> {
    bytes: Vec<u8>,
}

impl<const CAP: usize> View for Bounded<CAP> {
    type V = Seq<u8>;

    closed spec fn view(&self) -> Seq<u8> {
        self.bytes@
    }
}

impl<const CAP: usize> Bounded<CAP> {
    /// The bytes never exceed the capacity.
    pub open spec fn wf(&self) -> bool {
        self@.len() <= CAP
    }

    /// The capacity, in bytes.
    pub fn max_len() -> (r: usize)
        ensures
            r == CAP,
    {
        CAP
    }

    /// An empty buffer.
    pub fn new() -> (r: Self)
        ensures
            r.wf(),
            r@ == Seq::<u8>::empty(),
    {
        Bounded { bytes: Vec::new() }
    }

    /// A buffer holding a copy of `values`; none if they do not fit.
    pub fn from_slice(values: &[u8]) -> (r: Option<Self>)
        ensures
            values@.len() <= CAP <==> r is Some,
            r matches Some(b) ==> b.wf() && b@ == values@,
    {
        if values.len() > CAP {
            return None;
        }
        let mut bytes: Vec<u8> = Vec::new();
        let mut i: usize = 0;
        while i < values.len()
            invariant
                i <= values@.len(),
                bytes@ == values@.subrange(0, i as int),
            decreases values@.len() - i,
        {
            bytes.push(values[i]);
            i += 1;
        }
        assert(bytes@ == values@);
        Some(Bounded { bytes })
    }

    /// The number of bytes currently stored.
    pub fn len(&self) -> (r: usize)
        ensures
            r == self@.len(),
    {
        self.bytes.len()
    }

    /// Whether no byte is stored.
    pub fn is_empty(&self) -> (r: bool)
        ensures
            r == (self@.len() == 0),
    {
        self.bytes.len() == 0
    }

    /// The number of bytes which can still be added.
    pub fn available(&self) -> (r: usize)
        requires
            self.wf(),
        ensures
            r == CAP - self@.len(),
    {
        CAP - self.bytes.len()
    }

    /// Remove every byte.
    pub fn clear(&mut self)
        ensures
            final(self)@ == Seq::<u8>::empty(),
    {
        self.bytes.clear();
    }

    /// The stored bytes.
    pub fn as_slice(&self) -> (r: &[u8])
        ensures
            r@ == self@,
    {
        self.bytes.as_slice()
    }

    /// The stored bytes, as an owned vector.
    pub fn to_vec(&self) -> (r: Vec<u8>)
        ensures
            r@ == self@,
    {
        self.bytes.clone()
    }

    /// The byte at `index`.
    pub fn get(&self, index: usize) -> (r: u8)
        requires
            index < self@.len(),
        ensures
            r == self@[index as int],
    {
        self.bytes[index]
    }

    /// Replace the byte at `index`.
    pub fn set(&mut self, index: usize, value: u8)
        requires
            index < old(self)@.len(),
        ensures
            final(self)@ == old(self)@.update(index as int, value),
    {
        self.bytes.set(index, value);
    }

    /// The bytes from `start` (inclusive) to `end` (exclusive).
    pub fn range(&self, start: usize, end: usize) -> (r: Vec<u8>)
        requires
            start <= end <= self@.len(),
        ensures
            r@ == self@.subrange(start as int, end as int),
    {
        let mut out: Vec<u8> = Vec::new();
        let mut i: usize = start;
        while i < end
            invariant
                start <= i <= end <= self@.len(),
                out@ == self@.subrange(start as int, i as int),
            decreases end - i,
        {
            out.push(self.bytes[i]);
            i += 1;
        }
        out
    }

    /// Add a byte at the end; gives the byte back as an error when the buffer is full.
    pub fn push(&mut self, value: u8) -> (r: Result<u8, u8>)
        requires
            old(self).wf(),
        ensures
            final(self).wf(),
            old(self)@.len() < CAP ==> r == Ok::<u8, u8>(value) && final(self)@ == old(self)@.push(value),
            old(self)@.len() >= CAP ==> r == Err::<u8, u8>(value) && final(self)@ == old(self)@,
    {
        if self.bytes.len() >= CAP {
            return Err(value);
        }
        self.bytes.push(value);
        Ok(value)
    }

    /// Add all of `items` at the end; when they do not all fit, nothing is added and the
    /// space left is the error.
    pub fn push_all(&mut self, items: &[u8]) -> (r: Result<(), usize>)
        requires
            old(self).wf(),
        ensures
            final(self).wf(),
            old(self)@.len() + items@.len() <= CAP ==> r == Ok::<(), usize>(()) && final(self)@
                == old(self)@ + items@,
            old(self)@.len() + items@.len() > CAP ==> r == Err::<(), usize>(
                (CAP - old(self)@.len()) as usize,
            ) && final(self)@ == old(self)@,
    {
        let available = CAP - self.bytes.len();
        if items.len() > available {
            return Err(available);
        }
        let mut i: usize = 0;
        while i < items.len()
            invariant
                i <= items@.len(),
                old(self)@.len() + items@.len() <= CAP,
                self@ == old(self)@ + items@.subrange(0, i as int),
            decreases items@.len() - i,
        {
            self.bytes.push(items[i]);
            i += 1;
        }
        assert(items@.subrange(0, items@.len() as int) == items@);
        Ok(())
    }

    /// Whether both buffers hold the same bytes.
    pub fn same_as(&self, other: &[u8]) -> (r: bool)
        ensures
            r == (self@ == other@),
    {
        if self.bytes.len() != other.len() {
            return false;
        }
        let mut i: usize = 0;
        while i < other.len()
            invariant
                self@.len() == other@.len(),
                i <= other@.len(),
                forall|j: int| 0 <= j < i ==> self@[j] == other@[j],
            decreases other@.len() - i,
        {
            if self.bytes[i] != other[i] {
                return false;
            }
            i += 1;
        }
        assert(self@ =~= other@);
        true
    }
}

} // verus!
