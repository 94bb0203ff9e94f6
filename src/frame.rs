//! Frames: packets as they appear on a CMRInet network, framed and escaped, and the
//! byte-at-a-time machine that receives them.
use vstd::prelude::*;
use crate::address::Address;
use crate::buffer::Bounded;
use crate::packet::{packet_decoding, Error as PacketError, Packet, PayloadView, Raw as RawPacket};

verus! {

/// Value of a synchronization byte.
pub const SYN: u8 = 0xFF;
/// Value of a start-of-text byte.
pub const STX: u8 = 0x02;
/// Value of an end-of-text byte.
pub const ETX: u8 = 0x03;
/// Value of a data-link-escape byte.
pub const DLE: u8 = 0x10;

/// The most bytes that a frame holds: a maximally escaped packet of the greatest length.
pub const FRAME_MAX_LEN: usize = 518;

/// The most bytes that an unframed packet holds.
pub const PACKET_MAX_LEN: usize = 258;

/// The errors which can occur on decoding a frame.
#[derive(Clone, Copy, Debug, PartialEq, Eq, Hash)]
pub enum DecodeError {
    /// The frame is too short.
    TooShort,
    /// The frame is missing the synchronisation bytes.
    MissingSynchronisation,
    /// The frame is missing the start byte.
    MissingStart,
    /// The frame is missing the end byte.
    MissingEnd,
    /// The raw frame is too long.
    TooLong,
    /// The frame was valid, but contained an invalid packet.
    InvalidPacket {
        /// How the packet is invalid.
        source: crate::packet::Error,
    },
}

/// The errors which can occur on receiving a frame.
#[derive(Clone, Copy, Debug, PartialEq, Eq, Hash)]
pub enum ReceiveError {
    /// The frame is too short.
    TooShort,
    /// The frame is too long.
    TooLong,
    /// The frame is already complete.
    AlreadyComplete,
}

/// The frame is already full.
#[derive(Clone, Copy, Debug, PartialEq, Eq, Hash)]
pub struct Full;

/// How far the receiving of a frame has got.
#[derive(Clone, Copy, Debug, PartialEq, Eq, Hash)]
pub enum ReceiveState {
    /// Nothing of a frame seen yet.
    WaitingForSyn,
    /// One SYN seen.
    WaitingForSynSyn,
    /// Two SYNs seen.
    WaitingForSynSynStx,
    /// Inside the body.
    Receiving,
    /// Inside the body, just after a DLE.
    ReceivingEscaped,
    /// A complete frame.
    Received,
}

/// Whether `b` has a meaning in framing, so that it is escaped inside a body.
pub open spec fn is_special(b: u8) -> bool {
    b == SYN || b == STX || b == DLE || b == ETX
}

/// How one body byte appears on the wire.
pub open spec fn escape_byte(b: u8) -> Seq<u8> {
    if is_special(b) {
        seq![DLE, b]
    } else {
        seq![b]
    }
}

/// How a body appears on the wire: each special byte preceded by a DLE.
pub open spec fn escape(body: Seq<u8>) -> Seq<u8>
    decreases body.len(),
{
    if body.len() == 0 {
        Seq::empty()
    } else {
        escape_byte(body[0]) + escape(body.drop_first())
    }
}

/// The body that an escaped byte sequence stands for: a DLE is dropped and the byte after it
/// kept whatever it is; a DLE at the very end is dropped.
pub open spec fn unescape(s: Seq<u8>) -> Seq<u8>
    decreases s.len(),
{
    if s.len() == 0 {
        Seq::empty()
    } else if s[0] == DLE {
        if s.len() == 1 {
            Seq::empty()
        } else {
            seq![s[1]] + unescape(s.subrange(2, s.len() as int))
        }
    } else {
        seq![s[0]] + unescape(s.drop_first())
    }
}

/// The frame for a packet with unit address `unit`, message type `message_type` and
/// `body`: `SYN SYN STX unit message_type <escaped body> ETX`.
pub open spec fn frame_of(unit: u8, message_type: u8, body: Seq<u8>) -> Seq<u8> {
    seq![SYN, SYN, STX, unit, message_type] + escape(body) + seq![ETX]
}

/// Whether `w` is a sequence of body items as the receiver accepts them: a byte other than
/// DLE and ETX, or a DLE followed by any byte.
pub open spec fn well_escaped(w: Seq<u8>) -> bool
    decreases w.len(),
{
    if w.len() == 0 {
        true
    } else if w.len() >= 2 && w[w.len() - 2] == DLE && well_escaped(w.subrange(0, w.len() - 2)) {
        true
    } else {
        w.last() != DLE && w.last() != ETX && well_escaped(w.drop_last())
    }
}

/// The preamble of every frame.
pub open spec fn preamble() -> Seq<u8> {
    seq![SYN, SYN, STX]
}

/// What the receiver holds in each state: nothing, one SYN, two SYNs, the preamble and
/// well-escaped body items, the same followed by a DLE, or a complete frame of at least
/// six bytes ending in ETX.
pub open spec fn receive_invariant(state: ReceiveState, bytes: Seq<u8>) -> bool {
    match state {
        ReceiveState::WaitingForSyn => bytes == Seq::<u8>::empty(),
        ReceiveState::WaitingForSynSyn => bytes == seq![SYN],
        ReceiveState::WaitingForSynSynStx => bytes == seq![SYN, SYN],
        ReceiveState::Receiving => bytes.len() >= 3 && bytes.subrange(0, 3) == preamble()
            && well_escaped(bytes.subrange(3, bytes.len() as int)),
        ReceiveState::ReceivingEscaped => bytes.len() >= 4 && bytes.subrange(0, 3) == preamble()
            && bytes.last() == DLE && well_escaped(bytes.subrange(3, bytes.len() - 1)),
        ReceiveState::Received => bytes.len() >= 6 && bytes.subrange(0, 3) == preamble()
            && bytes.last() == ETX && well_escaped(bytes.subrange(3, bytes.len() - 1)),
    }
}

/// The receiver after one step: its state, the bytes it holds, the number of plain body
/// bytes seen, and what the step returns.
pub type ReceiveStep = (ReceiveState, Seq<u8>, nat, Result<bool, ReceiveError>);

/// The receiver after a reset, with what the step returns.
pub open spec fn reset_step(result: Result<bool, ReceiveError>) -> ReceiveStep {
    (ReceiveState::WaitingForSyn, Seq::empty(), 0, result)
}

/// The receiver after storing `byte` and moving to `next`; a frame that would outgrow the
/// buffer is too long.
pub open spec fn accept_step(
    bytes: Seq<u8>,
    packet_len: nat,
    byte: u8,
    next: ReceiveState,
) -> ReceiveStep {
    if bytes.len() >= FRAME_MAX_LEN {
        reset_step(Err(ReceiveError::TooLong))
    } else {
        (next, bytes.push(byte), packet_len, Ok(false))
    }
}

/// One step of the receiving machine on `byte`.
pub open spec fn receive_step(
    state: ReceiveState,
    bytes: Seq<u8>,
    packet_len: nat,
    byte: u8,
) -> ReceiveStep {
    match state {
        ReceiveState::Received => (state, bytes, packet_len, Err(ReceiveError::AlreadyComplete)),
        ReceiveState::WaitingForSyn => if byte == SYN {
            accept_step(bytes, packet_len, byte, ReceiveState::WaitingForSynSyn)
        } else {
            (state, bytes, packet_len, Ok(false))
        },
        ReceiveState::WaitingForSynSyn => if byte == SYN {
            accept_step(bytes, packet_len, byte, ReceiveState::WaitingForSynSynStx)
        } else {
            reset_step(Ok(false))
        },
        ReceiveState::WaitingForSynSynStx => if byte == STX {
            accept_step(bytes, packet_len, byte, ReceiveState::Receiving)
        } else if byte == SYN {
            (state, bytes, packet_len, Ok(false))
        } else {
            reset_step(Ok(false))
        },
        ReceiveState::Receiving => if byte == ETX {
            if bytes.len() >= FRAME_MAX_LEN {
                reset_step(Err(ReceiveError::TooLong))
            } else if bytes.len() + 1 < 6 {
                reset_step(Err(ReceiveError::TooShort))
            } else {
                (ReceiveState::Received, bytes.push(byte), packet_len, Ok(true))
            }
        } else if byte == DLE {
            accept_step(bytes, packet_len, byte, ReceiveState::ReceivingEscaped)
        } else if packet_len >= PACKET_MAX_LEN {
            reset_step(Err(ReceiveError::TooLong))
        } else {
            accept_step(bytes, packet_len + 1, byte, ReceiveState::Receiving)
        },
        ReceiveState::ReceivingEscaped => accept_step(
            bytes,
            packet_len,
            byte,
            ReceiveState::Receiving,
        ),
    }
}

/// A packet as it appears on a CMRInet network (framed and escaped), also used to receive
/// one byte at a time.
#[derive(Clone, Debug, PartialEq, Eq, Hash)]
pub struct Raw {
    buffer: Bounded<518>,
    receive_state: ReceiveState,
    packet_len: usize,
}

impl View for Raw {
    type V = Seq<u8>;

    closed spec fn view(&self) -> Seq<u8> {
        self.buffer@
    }
}

impl Raw {
    /// The receiving state.
    pub closed spec fn spec_state(&self) -> ReceiveState {
        self.receive_state
    }

    /// The number of plain body bytes received so far.
    pub closed spec fn spec_packet_len(&self) -> nat {
        self.packet_len as nat
    }

    /// At most 518 bytes, and at most 258 plain body bytes counted.
    pub open spec fn wf(&self) -> bool {
        self@.len() <= FRAME_MAX_LEN && self.spec_packet_len() <= PACKET_MAX_LEN
    }

    /// An empty frame, ready to receive.
    pub fn new() -> (r: Raw)
        ensures
            r.wf(),
            r@ == Seq::<u8>::empty(),
            r.spec_state() == ReceiveState::WaitingForSyn,
            r.spec_packet_len() == 0,
    {
        Raw { buffer: Bounded::<518>::new(), receive_state: ReceiveState::WaitingForSyn, packet_len: 0 }
    }

    /// A frame holding a copy of `value`, which must hold 4 to 518 bytes.
    pub fn try_from_slice(value: &[u8]) -> (r: Result<Raw, DecodeError>)
        ensures
            value@.len() < 4 ==> r == Err::<Raw, DecodeError>(DecodeError::TooShort),
            value@.len() > FRAME_MAX_LEN ==> r == Err::<Raw, DecodeError>(DecodeError::TooLong),
            4 <= value@.len() <= FRAME_MAX_LEN ==> r is Ok,
            r matches Ok(f) ==> f.wf() && f@ == value@ && f.spec_state() == ReceiveState::WaitingForSyn,
    {
        if value.len() < 4 {
            return Err(DecodeError::TooShort);
        }
        match Bounded::<518>::from_slice(value) {
            Some(buffer) => Ok(Raw { buffer, receive_state: ReceiveState::WaitingForSyn, packet_len: 0 }),
            None => Err(DecodeError::TooLong),
        }
    }

    /// The node address the contained packet is sent to or from, if the frame holds a valid
    /// unit address.
    pub fn address(&self) -> (r: Option<u8>)
        ensures
            r is Some <==> self@.len() > 3 && crate::address::is_unit_address(self@[3]),
            r matches Some(a) ==> a == self@[3] - 65,
    {
        if self.buffer.len() <= 3 {
            return None;
        }
        match Address::try_from_unit_address(self.buffer.get(3)) {
            Ok(a) => Some(a.as_node_address()),
            Err(_) => None,
        }
    }

    /// The message type of the contained packet, if it is one of `I`, `P`, `R` and `T`.
    pub fn message_type(&self) -> (r: Option<char>)
        ensures
            r is Some <==> self@.len() > 4 && crate::packet::is_message_type(self@[4]),
            r matches Some(c) ==> c == self@[4] as char,
    {
        if self.buffer.len() <= 4 {
            return None;
        }
        match crate::packet::check_message_type(self.buffer.get(4)) {
            Ok(t) => Some(t as char),
            Err(_) => None,
        }
    }

    /// Start a frame: `SYN SYN STX`, the unit address of `address` and `message_type`,
    /// replacing whatever the frame held.
    pub fn begin(&mut self, address: Address, message_type: u8)
        requires
            old(self).wf(),
        ensures
            final(self).wf(),
            final(self)@ == seq![SYN, SYN, STX, (address@ + 65) as u8, message_type],
            final(self).spec_state() == old(self).spec_state(),
            final(self).spec_packet_len() == old(self).spec_packet_len(),
    {
        self.buffer.clear();
        let _ = self.buffer.push(SYN);
        let _ = self.buffer.push(SYN);
        let _ = self.buffer.push(STX);
        let _ = self.buffer.push(address.as_unit_address());
        let _ = self.buffer.push(message_type);
    }

    /// Add a body byte, escaped: a special byte takes two bytes, any other one. Returns the
    /// number of bytes added; fails, adding nothing, when they do not fit.
    pub fn push(&mut self, value: u8) -> (r: Result<usize, Full>)
        requires
            old(self).wf(),
        ensures
            final(self).wf(),
            final(self).spec_state() == old(self).spec_state(),
            final(self).spec_packet_len() == old(self).spec_packet_len(),
            old(self)@.len() + escape_byte(value).len() <= FRAME_MAX_LEN ==> r == Ok::<usize, Full>(
                escape_byte(value).len() as usize,
            ) && final(self)@ == old(self)@ + escape_byte(value),
            old(self)@.len() + escape_byte(value).len() > FRAME_MAX_LEN ==> r == Err::<usize, Full>(
                Full,
            ) && final(self)@ == old(self)@,
    {
        let escape = value == SYN || value == STX || value == DLE || value == ETX;
        let count: usize = if escape {
            2
        } else {
            1
        };
        if self.buffer.available() < count {
            return Err(Full);
        }
        if escape {
            let _ = self.buffer.push(DLE);
        }
        let _ = self.buffer.push(value);
        Ok(count)
    }

    /// End a frame with ETX; fails, adding nothing, when it does not fit.
    pub fn finish(&mut self) -> (r: Result<(), Full>)
        requires
            old(self).wf(),
        ensures
            final(self).wf(),
            final(self).spec_state() == old(self).spec_state(),
            final(self).spec_packet_len() == old(self).spec_packet_len(),
            old(self)@.len() < FRAME_MAX_LEN ==> r == Ok::<(), Full>(()) && final(self)@ == old(
            self)@.push(ETX),
            old(self)@.len() >= FRAME_MAX_LEN ==> r == Err::<(), Full>(Full) && final(self)@ == old(
            self)@,
    {
        match self.buffer.push(ETX) {
            Ok(_) => Ok(()),
            Err(_) => Err(Full),
        }
    }

    /// Empty the frame, ready to receive a new one.
    pub fn reset(&mut self)
        ensures
            final(self).wf(),
            final(self)@ == Seq::<u8>::empty(),
            final(self).spec_state() == ReceiveState::WaitingForSyn,
            final(self).spec_packet_len() == 0,
    {
        self.buffer.clear();
        self.receive_state = ReceiveState::WaitingForSyn;
        self.packet_len = 0;
    }

    fn accept(&mut self, byte: u8, next: ReceiveState) -> (r: Result<bool, ReceiveError>)
        requires
            old(self).wf(),
        ensures
            final(self).wf(),
            (final(self).spec_state(), final(self)@, final(self).spec_packet_len(), r) == accept_step(
                old(self)@,
                old(self).spec_packet_len(),
                byte,
                next,
            ),
    {
        if self.buffer.len() >= FRAME_MAX_LEN {
            self.reset();
            return Err(ReceiveError::TooLong);
        }
        let _ = self.buffer.push(byte);
        self.receive_state = next;
        Ok(false)
    }

    /// Take one byte received from the network. Returns whether the frame is now complete.
    /// Every error leaves the frame reset, ready for the next frame, but for
    /// `AlreadyComplete`, which leaves it unchanged.
    pub fn receive(&mut self, byte: u8) -> (r: Result<bool, ReceiveError>)
        requires
            old(self).wf(),
        ensures
            final(self).wf(),
            (final(self).spec_state(), final(self)@, final(self).spec_packet_len(), r) == receive_step(
                old(self).spec_state(),
                old(self)@,
                old(self).spec_packet_len(),
                byte,
            ),
    {
        match self.receive_state {
            ReceiveState::Received => Err(ReceiveError::AlreadyComplete),
            ReceiveState::WaitingForSyn => {
                if byte == SYN {
                    self.accept(byte, ReceiveState::WaitingForSynSyn)
                } else {
                    Ok(false)
                }
            },
            ReceiveState::WaitingForSynSyn => {
                if byte == SYN {
                    self.accept(byte, ReceiveState::WaitingForSynSynStx)
                } else {
                    self.reset();
                    Ok(false)
                }
            },
            ReceiveState::WaitingForSynSynStx => {
                if byte == STX {
                    self.accept(byte, ReceiveState::Receiving)
                } else if byte == SYN {
                    Ok(false)
                } else {
                    self.reset();
                    Ok(false)
                }
            },
            ReceiveState::Receiving => {
                if byte == ETX {
                    if self.buffer.len() >= FRAME_MAX_LEN {
                        self.reset();
                        Err(ReceiveError::TooLong)
                    } else if self.buffer.len() + 1 < 6 {
                        self.reset();
                        Err(ReceiveError::TooShort)
                    } else {
                        let _ = self.buffer.push(byte);
                        self.receive_state = ReceiveState::Received;
                        Ok(true)
                    }
                } else if byte == DLE {
                    self.accept(byte, ReceiveState::ReceivingEscaped)
                } else if self.packet_len >= PACKET_MAX_LEN {
                    self.reset();
                    Err(ReceiveError::TooLong)
                } else {
                    if self.buffer.len() >= FRAME_MAX_LEN {
                        self.reset();
                        return Err(ReceiveError::TooLong);
                    }
                    self.packet_len = self.packet_len + 1;
                    self.accept(byte, ReceiveState::Receiving)
                }
            },
            ReceiveState::ReceivingEscaped => self.accept(byte, ReceiveState::Receiving),
        }
    }

    /// Check the framing and strip the escapes, giving the packet in binary form.
    ///
    /// Fails with `TooShort` under 4 bytes, `MissingSynchronisation` unless the first two
    /// bytes are SYN, `MissingStart` unless the third is STX, `MissingEnd` unless the last is
    /// ETX; then, as an invalid packet, with `TooShort` under 6 bytes and with `TooLong` when
    /// the unescaped packet exceeds 258 bytes.
    pub fn try_as_raw_packet(&self) -> (r: Result<RawPacket, DecodeError>)
        requires
            self.wf(),
        ensures
            r matches Ok(p) ==> p.wf() && decode_frame(self@) == Ok::<Seq<u8>, DecodeError>(p@),
            r matches Err(e) ==> decode_frame(self@) == Err::<Seq<u8>, DecodeError>(e),
    {
        let len = self.buffer.len();
        if len < 4 {
            return Err(DecodeError::TooShort);
        }
        if self.buffer.get(0) != SYN || self.buffer.get(1) != SYN {
            return Err(DecodeError::MissingSynchronisation);
        }
        if self.buffer.get(2) != STX {
            return Err(DecodeError::MissingStart);
        }
        if self.buffer.get(len - 1) != ETX {
            return Err(DecodeError::MissingEnd);
        }
        if len < 6 {
            return Err(DecodeError::InvalidPacket { source: PacketError::TooShort });
        }
        let ghost s = self@.subrange(3, len - 1);
        let mut raw_packet = RawPacket::new();
        let mut escape = false;
        assert(s.subrange(0, s.len() as int) =~= s);
        let mut i: usize = 3;
        while i < len - 1
            invariant
                3 <= i <= len - 1,
                6 <= len == self@.len() <= FRAME_MAX_LEN,
                self@[0] == SYN && self@[1] == SYN && self@[2] == STX && self@[len - 1] == ETX,
                s == self@.subrange(3, len - 1),
                raw_packet.wf(),
                !escape ==> raw_packet@ + unescape(s.subrange(i - 3, s.len() as int)) == unescape(s),
                escape ==> i > 3 && s[i - 4] == DLE && raw_packet@ + unescape(
                    s.subrange(i - 4, s.len() as int),
                ) == unescape(s),
            decreases len - 1 - i,
        {
            let byte = self.buffer.get(i);
            let ghost k = i - 3;
            proof {
                assert(s[k] == byte);
            }
            if byte == DLE && !escape {
                escape = true;
            } else {
                let ghost rest = s.subrange(k + 1, s.len() as int);
                proof {
                    if escape {
                        let t = s.subrange(k - 1, s.len() as int);
                        assert(t[0] == DLE && t[1] == byte);
                        assert(t.subrange(2, t.len() as int) =~= rest);
                        assert(unescape(t) == seq![byte] + unescape(rest));
                    } else {
                        let t = s.subrange(k, s.len() as int);
                        assert(t[0] == byte);
                        assert(t.drop_first() =~= rest);
                        assert(unescape(t) == seq![byte] + unescape(rest));
                    }
                    lemma_unescape_len(rest);
                }
                escape = false;
                if raw_packet.push(byte).is_err() {
                    proof {
                        assert(unescape(s) == raw_packet@ + (seq![byte] + unescape(rest)));
                        assert(unescape(s).len() > PACKET_MAX_LEN);

                    }
                    return Err(DecodeError::InvalidPacket { source: PacketError::TooLong });
                }
                proof {
                    assert(raw_packet@ + unescape(rest) =~= raw_packet@.drop_last() + (seq![byte]
                        + unescape(rest)));
                }
            }
            i += 1;
        }
        proof {
            if escape {
                let t = s.subrange(s.len() - 1, s.len() as int);
                assert(t =~= seq![DLE]);
            }
            assert(s.subrange(s.len() as int, s.len() as int) =~= Seq::<u8>::empty());
            assert(raw_packet@ =~= unescape(s));
        }
        Ok(raw_packet)
    }

    /// Decode the frame into a packet: the framing is checked, the escapes stripped, and
    /// the packet decoded.
    pub fn try_as_packet(&self) -> (r: Result<Packet, DecodeError>)
        requires
            self.wf(),
        ensures
            r matches Ok(p) ==> p.wf() && frame_decoding(self@) == Ok::<(u8, PayloadView), DecodeError>(p@),
            r matches Err(e) ==> frame_decoding(self@) == Err::<(u8, PayloadView), DecodeError>(e),
    {
        let raw_packet = self.try_as_raw_packet()?;
        match Packet::try_from_raw(&raw_packet) {
            Ok(p) => Ok(p),
            Err(e) => Err(DecodeError::InvalidPacket { source: e }),
        }
    }

    /// Take one byte from a byte stream: when it completes a frame, the frame is handed out
    /// and the receiver starts afresh; a receive error discards the bytes so far, and a frame
    /// left complete is dropped before the byte is taken.
    pub fn feed(&mut self, byte: u8) -> (r: Option<Raw>)
        requires
            old(self).wf(),
        ensures
            final(self).wf(),
            final(self).spec_state() != ReceiveState::Received,
            old(self).spec_state() != ReceiveState::Received ==> ({
                let (s, b, p, res) = receive_step(old(self).spec_state(), old(self)@, old(self).spec_packet_len(), byte);
                &&& res == Ok::<bool, ReceiveError>(true) ==> (r matches Some(f) && f.wf() && f@ == b
                    && f.spec_state() == ReceiveState::Received) && final(self)@ == Seq::<u8>::empty()
                    && final(self).spec_state() == ReceiveState::WaitingForSyn
                &&& res != Ok::<bool, ReceiveError>(true) ==> r is None && final(self)@ == b
                    && final(self).spec_state() == s && final(self).spec_packet_len() == p
            }),
            old(self).spec_state() == ReceiveState::Received ==> ({
                let (s, b, p, res) = receive_step(ReceiveState::WaitingForSyn, Seq::empty(), 0, byte);
                r is None && final(self)@ == b && final(self).spec_state() == s
            }),
    {
        if matches!(self.receive_state, ReceiveState::Received) {
            self.reset();
        }
        match self.receive(byte) {
            Ok(true) => {
                let mut complete = Raw::new();
                core::mem::swap(self, &mut complete);
                Some(complete)
            },
            _ => None,
        }
    }

    /// The receiving state.
    pub fn receive_state(&self) -> (r: ReceiveState)
        ensures
            r == self.spec_state(),
    {
        self.receive_state
    }

    /// The number of plain body bytes received so far.
    pub fn packet_len(&self) -> (r: usize)
        ensures
            r == self.spec_packet_len(),
    {
        self.packet_len
    }

    /// The number of bytes stored.
    pub fn len(&self) -> (r: usize)
        ensures
            r == self@.len(),
    {
        self.buffer.len()
    }

    /// Whether no byte is stored.
    pub fn is_empty(&self) -> (r: bool)
        ensures
            r == (self@.len() == 0),
    {
        self.buffer.is_empty()
    }

    /// The number of bytes which can still be added.
    pub fn available(&self) -> (r: usize)
        requires
            self.wf(),
        ensures
            r == FRAME_MAX_LEN - self@.len(),
    {
        self.buffer.available()
    }

    /// The stored bytes.
    pub fn as_slice(&self) -> (r: &[u8])
        ensures
            r@ == self@,
    {
        self.buffer.as_slice()
    }

    /// The stored bytes, as an owned vector.
    pub fn to_vec(&self) -> (r: Vec<u8>)
        ensures
            r@ == self@,
    {
        self.buffer.to_vec()
    }

    /// The byte at `index`.
    pub fn get(&self, index: usize) -> (r: u8)
        requires
            index < self@.len(),
        ensures
            r == self@[index as int],
    {
        self.buffer.get(index)
    }
}

impl Default for Raw {
    fn default() -> (r: Raw)
        ensures
            r.wf(),
            r@ == Seq::<u8>::empty(),
            r.spec_state() == ReceiveState::WaitingForSyn,
            r.spec_packet_len() == 0,
    {
        Raw::new()
    }
}

/// What decoding a frame holding `bytes` gives: its framing is checked and its escapes
/// stripped.
pub open spec fn decode_frame(bytes: Seq<u8>) -> Result<Seq<u8>, DecodeError> {
    if bytes.len() < 4 {
        Err(DecodeError::TooShort)
    } else if bytes[0] != SYN || bytes[1] != SYN {
        Err(DecodeError::MissingSynchronisation)
    } else if bytes[2] != STX {
        Err(DecodeError::MissingStart)
    } else if bytes.last() != ETX {
        Err(DecodeError::MissingEnd)
    } else if bytes.len() < 6 {
        Err(DecodeError::InvalidPacket { source: PacketError::TooShort })
    } else if unescape(bytes.subrange(3, bytes.len() - 1)).len() > PACKET_MAX_LEN {
        Err(DecodeError::InvalidPacket { source: PacketError::TooLong })
    } else {
        Ok(unescape(bytes.subrange(3, bytes.len() - 1)))
    }
}

/// What decoding a frame holding `bytes` into a packet gives: the node address and payload,
/// or the error (a packet error wrapped as an invalid packet).
pub open spec fn frame_decoding(bytes: Seq<u8>) -> Result<(u8, PayloadView), DecodeError> {
    match decode_frame(bytes) {
        Ok(p) => match packet_decoding(p) {
            Ok(v) => Ok(v),
            Err(e) => Err(DecodeError::InvalidPacket { source: e }),
        },
        Err(e) => Err(e),
    }
}

/// Unescaping never lengthens a byte sequence.
pub proof fn lemma_unescape_len(s: Seq<u8>)
    ensures
        unescape(s).len() <= s.len(),
    decreases s.len(),
{
    if s.len() > 0 {
        if s[0] == DLE && s.len() > 1 {
            lemma_unescape_len(s.subrange(2, s.len() as int));
        } else if s[0] != DLE {
            lemma_unescape_len(s.drop_first());
        }
    }
}

/// Escaping then unescaping any body gives back exactly that body, whichever special
/// bytes it holds.
pub proof fn lemma_unescape_escape(body: Seq<u8>)
    ensures
        unescape(escape(body)) == body,
    decreases body.len(),
{
    if body.len() > 0 {
        lemma_unescape_escape(body.drop_first());
        let e = escape(body);
        let rest = escape(body.drop_first());
        if is_special(body[0]) {
            assert(e == seq![DLE, body[0]] + rest);
            assert(e.subrange(2, e.len() as int) =~= rest);
        } else {
            assert(e == seq![body[0]] + rest);
            assert(e.drop_first() =~= rest);
        }
        assert(unescape(e) =~= body);
    } else {
        assert(escape(body) =~= Seq::<u8>::empty());
    }
}

/// Unit address and message type bytes pass through escaping unchanged, so a whole frame's
/// contents unescape to the packet that was framed.
pub proof fn lemma_unescape_frame(unit: u8, message_type: u8, body: Seq<u8>)
    requires
        !is_special(unit),
        !is_special(message_type),
    ensures
        ({
            let f = frame_of(unit, message_type, body);
            &&& f.subrange(3, f.len() - 1) == seq![unit, message_type] + escape(body)
            &&& unescape(f.subrange(3, f.len() - 1)) == seq![unit, message_type] + body
        }),
{
    let f = frame_of(unit, message_type, body);
    let inner = seq![unit, message_type] + escape(body);
    assert(f.subrange(3, f.len() - 1) =~= inner);
    assert(inner.drop_first() =~= seq![message_type] + escape(body));
    assert((seq![message_type] + escape(body)).drop_first() =~= escape(body));
    lemma_unescape_escape(body);
    assert(inner[0] == unit);
    assert(unescape(inner) == seq![unit] + unescape(inner.drop_first()));
    let second = inner.drop_first();
    assert(second[0] == message_type);
    assert(second.drop_first() =~= escape(body));
    assert(unescape(second) == seq![message_type] + unescape(second.drop_first()));
    assert(unescape(inner) =~= seq![unit, message_type] + body);
}

/// The length of a frame: five header bytes, the escaped body (at most twice the body) and
/// ETX; with a body of at most 256 bytes it fits the 518 bytes of a frame.
pub proof fn lemma_frame_len(unit: u8, message_type: u8, body: Seq<u8>)
    ensures
        frame_of(unit, message_type, body).len() <= 5 + 2 * body.len() + 1,
        body.len() <= 256 ==> frame_of(unit, message_type, body).len() <= FRAME_MAX_LEN,
{
    crate::packet::lemma_escape_len(body);
}

/// A fresh receiver holds what its state calls for.
pub proof fn lemma_receive_starts_valid()
    ensures
        receive_invariant(ReceiveState::WaitingForSyn, Seq::<u8>::empty()),
{
}

/// Receiving keeps the receiver in a valid state whatever byte comes: starting from a valid
/// state, a step either keeps receiving, or resets to an empty `WaitingForSyn`, or (only on
/// `Ok(true)`) completes a frame `SYN SYN STX <body items> ETX` whose body items are bytes
/// other than DLE and ETX or DLE-escaped pairs.
pub proof fn lemma_receive_step_valid(state: ReceiveState, bytes: Seq<u8>, packet_len: nat, byte: u8)
    requires
        receive_invariant(state, bytes),
    ensures
        ({
            let (s, b, p, r) = receive_step(state, bytes, packet_len, byte);
            &&& receive_invariant(s, b)
            &&& r == Ok::<bool, ReceiveError>(true) ==> s == ReceiveState::Received && b.len() >= 6
                && b.subrange(0, 3) == preamble() && b.last() == ETX && well_escaped(
                b.subrange(3, b.len() - 1),
            )
            &&& r is Err && r != Err::<bool, ReceiveError>(ReceiveError::AlreadyComplete) ==> s
                == ReceiveState::WaitingForSyn && b.len() == 0
            &&& r == Ok::<bool, ReceiveError>(false) ==> s != ReceiveState::Received
        }),
{
    let (s, b, p, r) = receive_step(state, bytes, packet_len, byte);
    match state {
        ReceiveState::Receiving => {
            if b.len() > bytes.len() {
                assert(b.subrange(0, 3) == bytes.subrange(0, 3));
                let w = bytes.subrange(3, bytes.len() as int);
                if s == ReceiveState::Receiving {
                    let w2 = b.subrange(3, b.len() as int);
                    assert(w2.drop_last() == w);
                    assert(w2.last() == byte);
                    assert(well_escaped(w2));
                } else {
                    assert(b.subrange(3, b.len() - 1) == w);
                }
            }
        },
        ReceiveState::ReceivingEscaped => {
            if b.len() > bytes.len() {
                assert(b.subrange(0, 3) == bytes.subrange(0, 3));
                let w = bytes.subrange(3, bytes.len() - 1);
                let w2 = b.subrange(3, b.len() as int);
                assert(w2.subrange(0, w2.len() - 2) == w);
                assert(w2[w2.len() - 2] == DLE);
            }
        },
        ReceiveState::WaitingForSynSyn => {
            assert(seq![SYN].push(SYN) =~= seq![SYN, SYN]);
        },
        ReceiveState::WaitingForSynSynStx => {
            if s == ReceiveState::Receiving {
                assert(b.subrange(0, 3) == preamble());
                assert(b.subrange(3, b.len() as int) == Seq::<u8>::empty());
            }
        },
        _ => {},
    }
}

} // verus!
