//! Packets in binary form, `[unit address, message type, body...]`, without escaping or
//! framing.
use vstd::prelude::*;
use crate::address::{Address, is_unit_address};
use crate::buffer::Bounded;
use crate::frame::{self, escape, escape_byte, frame_of, FRAME_MAX_LEN, PACKET_MAX_LEN};
use super::{Error, check_message_type, is_message_type};

verus! {

/// A packet in binary form: up to 258 bytes.
#[derive(Clone, Debug, PartialEq, Eq, Hash)]
pub struct Raw {
    buffer: Bounded<258>,
}

impl View for Raw {
    type V = Seq<u8>;

    closed spec fn view(&self) -> Seq<u8> {
        self.buffer@
    }
}

/// Escaping a body one byte longer adds the escaped form of that byte at the end.
pub proof fn lemma_escape_push(body: Seq<u8>, b: u8)
    ensures
        escape(body.push(b)) == escape(body) + escape_byte(b),
    decreases body.len(),
{
    if body.len() == 0 {
        let t = body.push(b);
        assert(t.drop_first() =~= Seq::<u8>::empty());
        assert(escape(t.drop_first()) =~= Seq::<u8>::empty());
        assert(t[0] == b);
        assert(escape(t) =~= escape_byte(b));
    } else {
        lemma_escape_push(body.drop_first(), b);
        assert(body.push(b).drop_first() =~= body.drop_first().push(b));
        assert(escape(body.push(b)) =~= escape(body) + escape_byte(b));
    }
}

/// An escaped body is at least as long as the body and at most twice as long.
pub proof fn lemma_escape_len(body: Seq<u8>)
    ensures
        body.len() <= escape(body).len() <= 2 * body.len(),
    decreases body.len(),
{
    if body.len() > 0 {
        lemma_escape_len(body.drop_first());
    }
}

impl Raw {
    /// At most 258 bytes.
    pub open spec fn wf(&self) -> bool {
        self@.len() <= PACKET_MAX_LEN
    }

    /// An empty packet.
    pub fn new() -> (r: Raw)
        ensures
            r.wf(),
            r@ == Seq::<u8>::empty(),
    {
        Raw { buffer: Bounded::<258>::new() }
    }

    /// A packet holding a copy of `value`, which must hold 2 to 258 bytes.
    pub fn try_from_slice(value: &[u8]) -> (r: Result<Raw, Error>)
        ensures
            value@.len() < 2 ==> r == Err::<Raw, Error>(Error::TooShort),
            value@.len() > PACKET_MAX_LEN ==> r == Err::<Raw, Error>(Error::TooLong),
            2 <= value@.len() <= PACKET_MAX_LEN ==> r is Ok,
            r matches Ok(p) ==> p.wf() && p@ == value@,
    {
        if value.len() < 2 {
            return Err(Error::TooShort);
        }
        match Bounded::<258>::from_slice(value) {
            Some(buffer) => Ok(Raw { buffer }),
            None => Err(Error::TooLong),
        }
    }

    /// The address the packet is sent to or from, if its first byte is a unit address.
    pub fn address(&self) -> (r: Option<Address>)
        ensures
            r is Some <==> self@.len() > 0 && is_unit_address(self@[0]),
            r matches Some(a) ==> a@ == self@[0] - 65,
    {
        if self.buffer.len() == 0 {
            return None;
        }
        match Address::try_from_unit_address(self.buffer.get(0)) {
            Ok(a) => Some(a),
            Err(_) => None,
        }
    }

    /// The message type of the packet, if its second byte is one of `I`, `P`, `R` and `T`.
    pub fn message_type(&self) -> (r: Option<char>)
        ensures
            r is Some <==> self@.len() > 1 && is_message_type(self@[1]),
            r matches Some(c) ==> c == self@[1] as char,
    {
        if self.buffer.len() <= 1 {
            return None;
        }
        match check_message_type(self.buffer.get(1)) {
            Ok(t) => Some(t as char),
            Err(_) => None,
        }
    }

    /// The body of the packet: the bytes after the unit address and message type.
    pub fn body(&self) -> (r: Vec<u8>)
        ensures
            self@.len() >= 2 ==> r@ == self@.subrange(2, self@.len() as int),
            self@.len() < 2 ==> r@ == Seq::<u8>::empty(),
    {
        if self.buffer.len() < 2 {
            return Vec::new();
        }
        self.buffer.range(2, self.buffer.len())
    }

    /// Add a byte at the end; gives the byte back as an error when 258 bytes are stored.
    pub fn push(&mut self, value: u8) -> (r: Result<u8, u8>)
        requires
            old(self).wf(),
        ensures
            final(self).wf(),
            old(self)@.len() < PACKET_MAX_LEN ==> r == Ok::<u8, u8>(value) && final(self)@ == old(self)@.push(value),
            old(self)@.len() >= PACKET_MAX_LEN ==> r == Err::<u8, u8>(value) && final(self)@ == old(self)@,
    {
        self.buffer.push(value)
    }

    /// Add all of `items` at the end; when they do not all fit, nothing is added and the
    /// space left is the error.
    pub fn push_all(&mut self, items: &[u8]) -> (r: Result<(), usize>)
        requires
            old(self).wf(),
        ensures
            final(self).wf(),
            old(self)@.len() + items@.len() <= PACKET_MAX_LEN ==> r == Ok::<(), usize>(()) && final(self)@ == old(self)@ + items@,
            old(self)@.len() + items@.len() > PACKET_MAX_LEN ==> r == Err::<(), usize>(
                (PACKET_MAX_LEN - old(self)@.len()) as usize,
            ) && final(self)@ == old(self)@,
    {
        self.buffer.push_all(items)
    }

    /// Frame and escape the packet, ready for sending onto a CMRInet network. The unit
    /// address must be valid (else `InvalidUnitAddress`) and then the message type (else
    /// `InvalidMessageType`); a packet of fewer than two bytes is `TooShort`.
    pub fn try_as_raw_frame(&self) -> (r: Result<frame::Raw, Error>)
        requires
            self.wf(),
        ensures
            self@.len() < 2 ==> r == Err::<frame::Raw, Error>(Error::TooShort),
            self@.len() >= 2 && !is_unit_address(self@[0]) ==> r == Err::<frame::Raw, Error>(
                Error::InvalidUnitAddress(self@[0]),
            ),
            self@.len() >= 2 && is_unit_address(self@[0]) && !is_message_type(self@[1]) ==> r
                == Err::<frame::Raw, Error>(Error::InvalidMessageType(self@[1])),
            self@.len() >= 2 && is_unit_address(self@[0]) && is_message_type(self@[1]) ==> r is Ok,
            r matches Ok(f) ==> f.wf() && f@ == frame_of(
                self@[0],
                self@[1],
                self@.subrange(2, self@.len() as int),
            ) && f.spec_state() == frame::ReceiveState::WaitingForSyn,
    {
        if self.buffer.len() < 2 {
            return Err(Error::TooShort);
        }
        let address = Address::try_from_unit_address(self.buffer.get(0))?;
        let message_type = check_message_type(self.buffer.get(1))?;
        let mut raw_frame = frame::Raw::new();
        raw_frame.begin(address, message_type);
        let len = self.buffer.len();
        let ghost body = self@.subrange(2, len as int);
        let mut i: usize = 2;
        while i < len
            invariant
                2 <= i <= len == self@.len() <= PACKET_MAX_LEN,
                body == self@.subrange(2, len as int),
                raw_frame.wf(),
                raw_frame.spec_state() == frame::ReceiveState::WaitingForSyn,
                raw_frame@ == seq![frame::SYN, frame::SYN, frame::STX, self@[0], self@[1]] + escape(
                    body.subrange(0, i - 2),
                ),
            decreases len - i,
        {
            proof {
                lemma_escape_len(body.subrange(0, i - 2));
                lemma_escape_push(body.subrange(0, i - 2), self@[i as int]);
                assert(body.subrange(0, i - 2).push(self@[i as int]) =~= body.subrange(0, i + 1 - 2));
            }
            let _ = raw_frame.push(self.buffer.get(i));
            i += 1;
        }
        proof {
            assert(body.subrange(0, len - 2) =~= body);
            lemma_escape_len(body);
        }
        let _ = raw_frame.finish();
        Ok(raw_frame)
    }

    /// The number of bytes stored.
    pub fn len(&self) -> (r: usize)
        ensures
            r == self@.len(),
    {
        self.buffer.len()
    }

    /// Whether no byte is stored.
    pub fn is_empty(&self) -> (r: bool)
        ensures
            r == (self@.len() == 0),
    {
        self.buffer.is_empty()
    }

    /// The number of bytes which can still be added.
    pub fn available(&self) -> (r: usize)
        requires
            self.wf(),
        ensures
            r == PACKET_MAX_LEN - self@.len(),
    {
        self.buffer.available()
    }

    /// Remove every byte.
    pub fn clear(&mut self)
        ensures
            final(self).wf(),
            final(self)@ == Seq::<u8>::empty(),
    {
        self.buffer.clear();
    }

    /// The stored bytes.
    pub fn as_slice(&self) -> (r: &[u8])
        ensures
            r@ == self@,
    {
        self.buffer.as_slice()
    }

    /// The stored bytes, as an owned vector.
    pub fn to_vec(&self) -> (r: Vec<u8>)
        ensures
            r@ == self@,
    {
        self.buffer.to_vec()
    }

    /// The byte at `index`.
    pub fn get(&self, index: usize) -> (r: u8)
        requires
            index < self@.len(),
        ensures
            r == self@[index as int],
    {
        self.buffer.get(index)
    }
}

impl Default for Raw {
    fn default() -> (r: Raw)
        ensures
            r.wf(),
            r@ == Seq::<u8>::empty(),
    {
        Raw::new()
    }
}

} // verus!
