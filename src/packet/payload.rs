//! The payload within a packet, by message type.
use vstd::prelude::*;
use crate::node_configuration::{NodeSort, NodeSortView};
use crate::node_configuration::node_sort::{node_sort_decoding, node_sort_encoding};
use super::{Data, Error, DATA_MAX_LEN, MT_INITIALIZATION, MT_POLL_REQUEST, MT_RECEIVE_DATA, MT_TRANSMIT_DATA};

verus! {

/// What a payload is, as values.
pub enum PayloadView {
    /// An initialization message, with the node kind and configuration.
    Initialization(NodeSortView),
    /// A poll request.
    PollRequest,
    /// A receive data message, with the input states.
    ReceiveData(Seq<u8>),
    /// A transmit data message, with the output states.
    TransmitData(Seq<u8>),
}

/// The payload within a packet.
#[derive(Clone, Debug, PartialEq, Eq, Hash)]
pub enum Payload {
    /// An initialization message, sent to configure a node before anything else.
    Initialization {
        /// The kind of the node being initialized, with its configuration.
        node_sort: NodeSort,
    },
    /// A poll request, asking a node to send back a receive data message.
    PollRequest,
    /// A receive data message: a node's input states, sent in reply to a poll request.
    ReceiveData {
        /// The data which was read from the inputs.
        data: Data,
    },
    /// A transmit data message: the output states that a node is to take.
    TransmitData {
        /// The data to be written to the outputs.
        data: Data,
    },
}

impl View for Payload {
    type V = PayloadView;

    open spec fn view(&self) -> PayloadView {
        match self {
            Payload::Initialization { node_sort } => PayloadView::Initialization(node_sort@),
            Payload::PollRequest => PayloadView::PollRequest,
            Payload::ReceiveData { data } => PayloadView::ReceiveData(data@),
            Payload::TransmitData { data } => PayloadView::TransmitData(data@),
        }
    }
}

/// The bytes of a payload: the message type, then the body.
pub open spec fn payload_encoding(v: PayloadView) -> Seq<u8> {
    match v {
        PayloadView::Initialization(n) => seq![MT_INITIALIZATION] + node_sort_encoding(n),
        PayloadView::PollRequest => seq![MT_POLL_REQUEST],
        PayloadView::ReceiveData(d) => seq![MT_RECEIVE_DATA] + d,
        PayloadView::TransmitData(d) => seq![MT_TRANSMIT_DATA] + d,
    }
}

/// What decoding the bytes of a payload gives, by the message type in the first byte.
pub open spec fn payload_decoding(raw: Seq<u8>) -> Result<PayloadView, Error> {
    if raw.len() == 0 {
        Err(Error::TooShort)
    } else if raw[0] == MT_INITIALIZATION {
        match node_sort_decoding(raw.drop_first()) {
            Ok(n) => Ok(PayloadView::Initialization(n)),
            Err(e) => Err(e),
        }
    } else if raw[0] == MT_POLL_REQUEST {
        Ok(PayloadView::PollRequest)
    } else if raw[0] == MT_RECEIVE_DATA {
        if raw.len() - 1 > DATA_MAX_LEN {
            Err(Error::BodyTooLong)
        } else {
            Ok(PayloadView::ReceiveData(raw.drop_first()))
        }
    } else if raw[0] == MT_TRANSMIT_DATA {
        if raw.len() - 1 > DATA_MAX_LEN {
            Err(Error::BodyTooLong)
        } else {
            Ok(PayloadView::TransmitData(raw.drop_first()))
        }
    } else {
        Err(Error::InvalidMessageType(raw[0]))
    }
}

fn append_bytes(out: &mut Vec<u8>, items: &[u8])
    ensures
        final(out)@ == old(out)@ + items@,
{
    let mut i: usize = 0;
    while i < items.len()
        invariant
            i <= items@.len(),
            out@ == old(out)@ + items@.subrange(0, i as int),
        decreases items@.len() - i,
    {
        out.push(items[i]);
        i += 1;
        proof {
            assert(out@ =~= old(out)@ + items@.subrange(0, i as int));
        }
    }
    proof {
        assert(items@.subrange(0, items@.len() as int) =~= items@);
    }
}

impl Payload {
    /// The node configuration or data is valid.
    pub open spec fn wf(&self) -> bool {
        match self {
            Payload::Initialization { node_sort } => node_sort.wf(),
            Payload::PollRequest => true,
            Payload::ReceiveData { data } => data.wf(),
            Payload::TransmitData { data } => data.wf(),
        }
    }

    /// Decode the bytes of a payload: the message type, then the body.
    pub fn try_decode(raw: &[u8]) -> (r: Result<Payload, Error>)
        ensures
            r matches Ok(p) ==> p.wf() && payload_decoding(raw@) == Ok::<PayloadView, Error>(p@),
            r matches Err(e) ==> payload_decoding(raw@) == Err::<PayloadView, Error>(e),
    {
        if raw.len() == 0 {
            return Err(Error::TooShort);
        }
        let body = &raw[1..raw.len()];
        assert(body@ == raw@.drop_first());
        let message_type = raw[0];
        if message_type == MT_INITIALIZATION {
            Ok(Payload::Initialization { node_sort: NodeSort::try_decode(body)? })
        } else if message_type == MT_POLL_REQUEST {
            Ok(Payload::PollRequest)
        } else if message_type == MT_RECEIVE_DATA {
            Ok(Payload::ReceiveData { data: Data::try_from_slice(body)? })
        } else if message_type == MT_TRANSMIT_DATA {
            Ok(Payload::TransmitData { data: Data::try_from_slice(body)? })
        } else {
            Err(Error::InvalidMessageType(message_type))
        }
    }

    /// Encode the payload: the message type, then the body.
    pub fn encode(&self) -> (r: Vec<u8>)
        requires
            self.wf(),
        ensures
            r@ == payload_encoding(self@),
            r@.len() <= 1 + DATA_MAX_LEN,
    {
        let mut out: Vec<u8> = Vec::new();
        match self {
            Payload::Initialization { node_sort } => {
                out.push(MT_INITIALIZATION);
                let body = node_sort.encode();
                append_bytes(&mut out, body.as_slice());
            },
            Payload::PollRequest => {
                out.push(MT_POLL_REQUEST);
            },
            Payload::ReceiveData { data } => {
                out.push(MT_RECEIVE_DATA);
                append_bytes(&mut out, data.as_slice());
            },
            Payload::TransmitData { data } => {
                out.push(MT_TRANSMIT_DATA);
                append_bytes(&mut out, data.as_slice());
            },
        }
        proof {
            assert(out@ =~= payload_encoding(self@));
        }
        out
    }
}

} // verus!
