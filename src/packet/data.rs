//! The data carried by a packet, with access to single bits.
use vstd::prelude::*;
use crate::buffer::Bounded;
use super::Error;

verus! {

/// The most bytes that packet data holds.
pub const DATA_MAX_LEN: usize = 256;

/// The highest bit index that packet data can hold.
pub const DATA_MAX_BIT: usize = 2047;

/// Whether bit `bit` (0 is the least significant) of `byte` is set.
pub open spec fn bit_is_set(byte: u8, bit: u8) -> bool {
    byte & (1u8 << bit) != 0
}

/// `byte` with bit `bit` set or cleared.
pub open spec fn with_bit(byte: u8, bit: u8, value: bool) -> u8 {
    if value {
        byte | (1u8 << bit)
    } else {
        byte & !(1u8 << bit)
    }
}

/// `bytes` padded with zero bytes up to `len` bytes.
pub open spec fn zero_extended(bytes: Seq<u8>, len: nat) -> Seq<u8> {
    if bytes.len() >= len {
        bytes
    } else {
        bytes + Seq::new((len - bytes.len()) as nat, |i: int| 0u8)
    }
}

/// The data of a packet: the output states of a transmit data message, the input states of
/// a receive data message, or the body of an initialization message. Up to 256 bytes.
#[derive(Clone, Debug, PartialEq, Eq, Hash)]
pub struct Data {
    buffer: Bounded<256>,
}

impl View for Data {
    type V = Seq<u8>;

    closed spec fn view(&self) -> Seq<u8> {
        self.buffer@
    }
}

impl Data {
    /// At most 256 bytes.
    pub open spec fn wf(&self) -> bool {
        self@.len() <= DATA_MAX_LEN
    }

    /// `len` zero bytes; `len` is at most 256.
    pub fn new(len: usize) -> (r: Data)
        requires
            len <= DATA_MAX_LEN,
        ensures
            r.wf(),
            r@ == Seq::new(len as nat, |i: int| 0u8),
    {
        let mut buffer = Bounded::<256>::new();
        let mut i: usize = 0;
        while i < len
            invariant
                i <= len <= DATA_MAX_LEN,
                buffer.wf(),
                buffer@ == Seq::new(i as nat, |k: int| 0u8),
            decreases len - i,
        {
            let _ = buffer.push(0);
            i += 1;
            assert(buffer@ =~= Seq::new(i as nat, |k: int| 0u8));
        }
        Data { buffer }
    }

    /// A copy of `values`; fails with `BodyTooLong` beyond 256 bytes.
    pub fn try_from_slice(values: &[u8]) -> (r: Result<Data, Error>)
        ensures
            values@.len() <= DATA_MAX_LEN <==> r is Ok,
            r matches Ok(d) ==> d.wf() && d@ == values@,
            values@.len() > DATA_MAX_LEN ==> r == Err::<Data, Error>(Error::BodyTooLong),
    {
        match Bounded::<256>::from_slice(values) {
            Some(buffer) => Ok(Data { buffer }),
            None => Err(Error::BodyTooLong),
        }
    }

    /// Whether bit `index` is set: bit `index % 8` of byte `index / 8`, which must exist.
    pub fn get_bit(&self, index: usize) -> (r: bool)
        requires
            index / 8 < self@.len(),
        ensures
            r == bit_is_set(self@[(index / 8) as int], (index % 8) as u8),
    {
        let byte = self.buffer.get(index / 8);
        let bit = (index % 8) as u8;
        byte & (1u8 << bit) != 0
    }

    /// Set or clear bit `index` (at most 2047), first growing the data with zero bytes up to
    /// the byte that holds it.
    pub fn set_bit(&mut self, index: usize, value: bool)
        requires
            old(self).wf(),
            index <= DATA_MAX_BIT,
        ensures
            final(self).wf(),
            final(self)@ == zero_extended(old(self)@, (index / 8 + 1) as nat).update(
                (index / 8) as int,
                with_bit(zero_extended(old(self)@, (index / 8 + 1) as nat)[(index / 8) as int], (index % 8) as u8, value),
            ),
    {
        let byte_index = index / 8;
        let bit = (index % 8) as u8;
        let ghost start = self@;
        while self.buffer.len() <= byte_index
            invariant
                self.buffer.wf(),
                byte_index < DATA_MAX_LEN,
                start.len() <= self@.len(),
                self@.len() <= byte_index + 1 || self@ == start,
                self@ == zero_extended(start, self@.len()),
            decreases byte_index + 1 - self@.len(),
        {
            let _ = self.buffer.push(0);
            assert(self@ =~= zero_extended(start, self@.len()));
        }
        assert(self@ == zero_extended(start, (index / 8 + 1) as nat)) by {
            assert(self@ =~= zero_extended(start, (index / 8 + 1) as nat));
        }
        let old_byte = self.buffer.get(byte_index);
        let new_byte = if value {
            old_byte | (1u8 << bit)
        } else {
            old_byte & !(1u8 << bit)
        };
        self.buffer.set(byte_index, new_byte);
    }

    /// Flip bit `index`: bit `index % 8` of byte `index / 8`, which must exist.
    pub fn toggle_bit(&mut self, index: usize)
        requires
            index / 8 < old(self)@.len(),
        ensures
            final(self)@ == old(self)@.update(
                (index / 8) as int,
                old(self)@[(index / 8) as int] ^ (1u8 << (index % 8) as u8),
            ),
    {
        let byte_index = index / 8;
        let bit = (index % 8) as u8;
        let byte = self.buffer.get(byte_index);
        self.buffer.set(byte_index, byte ^ (1u8 << bit));
    }

    /// Add a byte at the end; gives the byte back as an error when 256 bytes are stored.
    pub fn push(&mut self, value: u8) -> (r: Result<u8, u8>)
        requires
            old(self).wf(),
        ensures
            final(self).wf(),
            old(self)@.len() < DATA_MAX_LEN ==> r == Ok::<u8, u8>(value) && final(self)@ == old(self)@.push(value),
            old(self)@.len() >= DATA_MAX_LEN ==> r == Err::<u8, u8>(value) && final(self)@ == old(self)@,
    {
        self.buffer.push(value)
    }

    /// Add all of `items` at the end; when they do not all fit, nothing is added and the
    /// space left is the error.
    pub fn push_all(&mut self, items: &[u8]) -> (r: Result<(), usize>)
        requires
            old(self).wf(),
        ensures
            final(self).wf(),
            old(self)@.len() + items@.len() <= DATA_MAX_LEN ==> r == Ok::<(), usize>(()) && final(self)@ == old(self)@ + items@,
            old(self)@.len() + items@.len() > DATA_MAX_LEN ==> r == Err::<(), usize>(
                (DATA_MAX_LEN - old(self)@.len()) as usize,
            ) && final(self)@ == old(self)@,
    {
        self.buffer.push_all(items)
    }

    /// The number of bytes stored.
    pub fn len(&self) -> (r: usize)
        ensures
            r == self@.len(),
    {
        self.buffer.len()
    }

    /// Whether no byte is stored.
    pub fn is_empty(&self) -> (r: bool)
        ensures
            r == (self@.len() == 0),
    {
        self.buffer.is_empty()
    }

    /// The number of bytes which can still be added.
    pub fn available(&self) -> (r: usize)
        requires
            self.wf(),
        ensures
            r == DATA_MAX_LEN - self@.len(),
    {
        self.buffer.available()
    }

    /// Remove every byte.
    pub fn clear(&mut self)
        ensures
            final(self).wf(),
            final(self)@ == Seq::<u8>::empty(),
    {
        self.buffer.clear();
    }

    /// The stored bytes.
    pub fn as_slice(&self) -> (r: &[u8])
        ensures
            r@ == self@,
    {
        self.buffer.as_slice()
    }

    /// The stored bytes, as an owned vector.
    pub fn to_vec(&self) -> (r: Vec<u8>)
        ensures
            r@ == self@,
    {
        self.buffer.to_vec()
    }

    /// The byte at `index`.
    pub fn get(&self, index: usize) -> (r: u8)
        requires
            index < self@.len(),
        ensures
            r == self@[index as int],
    {
        self.buffer.get(index)
    }

    /// Replace the byte at `index`.
    pub fn set(&mut self, index: usize, value: u8)
        requires
            index < old(self)@.len(),
        ensures
            final(self)@ == old(self)@.update(index as int, value),
    {
        self.buffer.set(index, value);
    }
}

impl Default for Data {
    fn default() -> (r: Data)
        ensures
            r.wf(),
            r@ == Seq::<u8>::empty(),
    {
        Data { buffer: Bounded::<256>::new() }
    }
}

} // verus!
