//! CMRInet packets: the addressed, typed messages, and their unframed binary form.
use vstd::prelude::*;
use crate::address::{is_unit_address, Address};
use crate::frame;

mod data;
mod error;
mod payload;
mod raw;

pub use data::{Data, DATA_MAX_LEN};
use crate::node_configuration::{NodeSort, NodeSortView};
pub use error::Error;
pub use payload::{payload_decoding, payload_encoding, Payload, PayloadView};
pub use raw::{Raw, lemma_escape_len, lemma_escape_push};

verus! {

/// Message type of an initialization message.
pub const MT_INITIALIZATION: u8 = 73;
/// Message type of a poll request.
pub const MT_POLL_REQUEST: u8 = 80;
/// Message type of a receive data message.
pub const MT_RECEIVE_DATA: u8 = 82;
/// Message type of a transmit data message.
pub const MT_TRANSMIT_DATA: u8 = 84;

/// Whether `b` is a known message type: `I`, `P`, `R` or `T`.
pub open spec fn is_message_type(b: u8) -> bool {
    b == MT_INITIALIZATION || b == MT_POLL_REQUEST || b == MT_RECEIVE_DATA || b == MT_TRANSMIT_DATA
}

/// `byte` if it is a known message type, else `InvalidMessageType`.
pub fn check_message_type(byte: u8) -> (r: Result<u8, Error>)
    ensures
        is_message_type(byte) ==> r == Ok::<u8, Error>(byte),
        !is_message_type(byte) ==> r == Err::<u8, Error>(Error::InvalidMessageType(byte)),
{
    if byte == MT_INITIALIZATION || byte == MT_POLL_REQUEST || byte == MT_RECEIVE_DATA
        || byte == MT_TRANSMIT_DATA {
        Ok(byte)
    } else {
        Err(Error::InvalidMessageType(byte))
    }
}

impl Raw {
    /// Decode the bytes into a packet.
    pub fn try_decode(&self) -> (r: Result<Packet, Error>)
        ensures
            r matches Ok(p) ==> p.wf() && packet_decoding(self@) == Ok::<(u8, PayloadView), Error>(p@),
            r matches Err(e) ==> packet_decoding(self@) == Err::<(u8, PayloadView), Error>(e),
    {
        Packet::try_from_raw(self)
    }
}

/// The bytes of a packet without framing: the unit address, then the payload.
pub open spec fn packet_encoding(address: u8, payload: PayloadView) -> Seq<u8> {
    seq![(address + 65) as u8] + payload_encoding(payload)
}

/// What decoding the bytes of a packet gives: the node address and the payload, or the
/// error.
pub open spec fn packet_decoding(raw: Seq<u8>) -> Result<(u8, PayloadView), Error> {
    if raw.len() < 2 {
        Err(Error::TooShort)
    } else if !is_unit_address(raw[0]) {
        Err(Error::InvalidUnitAddress(raw[0]))
    } else {
        match payload_decoding(raw.drop_first()) {
            Ok(p) => Ok(((raw[0] - 65) as u8, p)),
            Err(e) => Err(e),
        }
    }
}

/// A payload as this library builds it: a valid node configuration, or at most 256 data
/// bytes.
pub open spec fn payload_view_wf(v: PayloadView) -> bool {
    match v {
        PayloadView::Initialization(n) => crate::node_configuration::node_sort::node_sort_view_wf(n),
        PayloadView::PollRequest => true,
        PayloadView::ReceiveData(d) => d.len() <= DATA_MAX_LEN,
        PayloadView::TransmitData(d) => d.len() <= DATA_MAX_LEN,
    }
}

/// Decoding the bytes that a valid payload encodes to gives it back.
pub proof fn lemma_payload_round_trip(v: PayloadView)
    requires
        payload_view_wf(v),
    ensures
        payload_decoding(payload_encoding(v)) == Ok::<PayloadView, Error>(v),
{
    let e = payload_encoding(v);
    match v {
        PayloadView::Initialization(n) => {
            crate::node_configuration::node_sort::lemma_node_sort_round_trip(n);
            assert(e.drop_first() =~= crate::node_configuration::node_sort::node_sort_encoding(n));
        },
        PayloadView::PollRequest => {},
        PayloadView::ReceiveData(d) => {
            assert(e.drop_first() =~= d);
        },
        PayloadView::TransmitData(d) => {
            assert(e.drop_first() =~= d);
        },
    }
}

/// Decoding the bytes that a valid packet encodes to gives the packet back; so does
/// decoding the frame that those bytes are framed into.
pub proof fn lemma_packet_round_trip(p: Packet)
    requires
        p.wf(),
    ensures
        packet_decoding(packet_encoding(p@.0, p@.1)) == Ok::<(u8, PayloadView), Error>(p@),
        ({
            let e = packet_encoding(p@.0, p@.1);
            frame::frame_decoding(frame::frame_of(e[0], e[1], e.subrange(2, e.len() as int)))
                == Ok::<(u8, PayloadView), frame::DecodeError>(p@)
        }),
{
    let e = packet_encoding(p@.0, p@.1);
    let v = p@.1;
    lemma_payload_wf(p.spec_payload());
    lemma_payload_round_trip(v);
    assert(e.drop_first() =~= payload_encoding(v));
    let body = e.subrange(2, e.len() as int);
    assert(is_message_type(e[1]));
    frame::lemma_unescape_frame(e[0], e[1], body);
    frame::lemma_frame_len(e[0], e[1], body);
    assert(seq![e[0], e[1]] + body =~= e);
    lemma_payload_encoding_len(v);
}

/// A valid payload encodes to at most 257 bytes: the message type and at most 256 more.
pub proof fn lemma_payload_encoding_len(v: PayloadView)
    requires
        payload_view_wf(v),
    ensures
        1 <= payload_encoding(v).len() <= 1 + DATA_MAX_LEN,
{
    if let PayloadView::Initialization(n) = v {
        match n {
            NodeSortView::Usic(_, cards) => {
                assert(crate::node_configuration::sic::group_count(cards.len()) <= 16);
            },
            NodeSortView::Susic(_, cards) => {
                assert(crate::node_configuration::sic::group_count(cards.len()) <= 16);
            },
            _ => {},
        }
    }
}

/// A valid payload has a valid view.
pub proof fn lemma_payload_wf(p: Payload)
    requires
        p.wf(),
    ensures
        payload_view_wf(p@),
{
    if let Payload::Initialization { node_sort } = p {
        crate::node_configuration::node_sort::lemma_node_sort_wf(node_sort);
    }
}

/// A CMRInet packet: the address of a node and a payload.
#[derive(Clone, Debug, PartialEq, Eq, Hash)]
pub struct Packet {
    address: Address,
    payload: Payload,
}

impl View for Packet {
    type V = (u8, PayloadView);

    open spec fn view(&self) -> (u8, PayloadView) {
        (self.spec_address()@, self.spec_payload()@)
    }
}

impl Packet {
    /// The address.
    pub closed spec fn spec_address(&self) -> Address {
        self.address
    }

    /// The payload.
    pub closed spec fn spec_payload(&self) -> Payload {
        self.payload
    }

    /// A node address from 0 to 127 and a valid payload.
    pub open spec fn wf(&self) -> bool {
        self@.0 <= 127 && self.spec_payload().wf()
    }

    /// An initialization packet.
    pub fn new_initialization(address: Address, node_sort: NodeSort) -> (r: Packet)
        ensures
            r@ == (address@, PayloadView::Initialization(node_sort@)),
            r.spec_payload() == (Payload::Initialization { node_sort }),
            address@ <= 127,
            node_sort.wf() ==> r.wf(),
    {
        let _ = address.as_node_address();
        Packet { address, payload: Payload::Initialization { node_sort } }
    }

    /// A poll request packet.
    pub fn new_poll_request(address: Address) -> (r: Packet)
        ensures
            r.wf(),
            r@ == (address@, PayloadView::PollRequest),
    {
        let _ = address.as_node_address();
        Packet { address, payload: Payload::PollRequest }
    }

    /// A receive data packet (node inputs to controller).
    pub fn new_receive_data(address: Address, data: Data) -> (r: Packet)
        ensures
            r@ == (address@, PayloadView::ReceiveData(data@)),
            r.spec_payload() == (Payload::ReceiveData { data }),
            address@ <= 127,
            data.wf() ==> r.wf(),
    {
        let _ = address.as_node_address();
        Packet { address, payload: Payload::ReceiveData { data } }
    }

    /// A transmit data packet (controller to node outputs).
    pub fn new_transmit_data(address: Address, data: Data) -> (r: Packet)
        ensures
            r@ == (address@, PayloadView::TransmitData(data@)),
            r.spec_payload() == (Payload::TransmitData { data }),
            address@ <= 127,
            data.wf() ==> r.wf(),
    {
        let _ = address.as_node_address();
        Packet { address, payload: Payload::TransmitData { data } }
    }

    /// The address this packet is sent to or has been received from.
    pub fn address(&self) -> (r: Address)
        ensures
            r == self.spec_address(),
    {
        self.address
    }

    /// The packet's payload.
    pub fn payload(&self) -> (r: &Payload)
        ensures
            r == self.spec_payload(),
    {
        &self.payload
    }

    /// Decode the bytes of a packet (without framing).
    pub fn try_from_raw(raw: &Raw) -> (r: Result<Packet, Error>)
        ensures
            r matches Ok(p) ==> p.wf() && packet_decoding(raw@) == Ok::<(u8, PayloadView), Error>(p@),
            r matches Err(e) ==> packet_decoding(raw@) == Err::<(u8, PayloadView), Error>(e),
    {
        if raw.len() < 2 {
            return Err(Error::TooShort);
        }
        let address = match raw.address() {
            Some(a) => a,
            None => {
                return Err(Error::InvalidUnitAddress(raw.get(0)));
            },
        };
        let bytes = raw.as_slice();
        let rest = &bytes[1..bytes.len()];
        assert(rest@ == raw@.drop_first());
        let payload = Payload::try_decode(rest)?;
        let _ = address.as_node_address();
        Ok(Packet { address, payload })
    }

    /// Encode into the bytes of a packet, without escaping or framing.
    pub fn encode_packet(&self) -> (r: Raw)
        requires
            self.wf(),
        ensures
            r.wf(),
            r@ == packet_encoding(self@.0, self@.1),
    {
        let mut raw = Raw::new();
        let _ = raw.push(self.address.as_unit_address());
        let payload = self.payload.encode();
        let _ = raw.push_all(payload.as_slice());
        raw
    }

    /// Encode into a frame, ready for writing to a CMRInet network.
    pub fn encode_frame(&self) -> (r: frame::Raw)
        requires
            self.wf(),
        ensures
            r.wf(),
            r.spec_state() == frame::ReceiveState::WaitingForSyn,
            r@ == frame::frame_of(
                packet_encoding(self@.0, self@.1)[0],
                packet_encoding(self@.0, self@.1)[1],
                packet_encoding(self@.0, self@.1).subrange(2, packet_encoding(self@.0, self@.1).len() as int),
            ),
    {
        let raw = self.encode_packet();
        proof {
            let e = packet_encoding(self@.0, self@.1);
            assert(e[1] == payload_encoding(self@.1)[0]);
            assert(is_message_type(e[1]));
        }
        match raw.try_as_raw_frame() {
            Ok(f) => f,
            Err(_) => frame::Raw::new(),
        }
    }
}

} // verus!
