//! Counts of the packets seen on a connection: in the current second, in total, and per
//! second over the last five minutes.
use vstd::prelude::*;
use crate::packet::{Packet, Payload};
use crate::readings::Readings;

verus! {

/// The number of past seconds that are kept.
pub const READINGS_SIZE: usize = 300;

/// A count of packets: this second, in total, and for each past second.
#[derive(Clone, Debug, PartialEq, Eq)]
pub struct Count {
    current: u16,
    total: u64,
    history: Readings<u16, 300>,
}

impl Count {
    /// The count in the current second.
    pub closed spec fn spec_current(&self) -> u16 {
        self.current
    }

    /// The count since the start.
    pub closed spec fn spec_total(&self) -> u64 {
        self.total
    }

    /// The counts of the past seconds, oldest first.
    pub closed spec fn spec_history(&self) -> Seq<u16> {
        self.history@
    }

    /// The history is a valid ring of readings.
    pub closed spec fn wf(&self) -> bool {
        self.history.wf()
    }

    /// Nothing counted.
    pub fn new() -> (r: Count)
        ensures
            r.wf(),
            r.spec_current() == 0,
            r.spec_total() == 0,
            r.spec_history() == Seq::<u16>::empty(),
    {
        Count { current: 0, total: 0, history: Readings::new() }
    }

    /// Count one packet (the counts stop at their largest value).
    pub fn record(&mut self)
        requires
            old(self).wf(),
        ensures
            final(self).wf(),
            final(self).spec_current() == if old(self).spec_current() < u16::MAX {
                (old(self).spec_current() + 1) as u16
            } else {
                old(self).spec_current()
            },
            final(self).spec_total() == if old(self).spec_total() < u64::MAX {
                (old(self).spec_total() + 1) as u64
            } else {
                old(self).spec_total()
            },
            final(self).spec_history() == old(self).spec_history(),
    {
        if self.current < u16::MAX {
            self.current = self.current + 1;
        }
        if self.total < u64::MAX {
            self.total = self.total + 1;
        }
    }

    /// Close the current second: its count joins the history and starts again from zero.
    pub fn tick(&mut self)
        requires
            old(self).wf(),
        ensures
            final(self).wf(),
            final(self).spec_current() == 0,
            final(self).spec_total() == old(self).spec_total(),
            old(self).spec_history().len() < READINGS_SIZE ==> final(self).spec_history() == old(
            self).spec_history().push(old(self).spec_current()),
            old(self).spec_history().len() >= READINGS_SIZE ==> final(self).spec_history() == old(
            self).spec_history().drop_first().push(old(self).spec_current()),
    {
        self.history.push(self.current);
        self.current = 0;
    }

    /// The count in the current second.
    pub fn current(&self) -> (r: u16)
        ensures
            r == self.spec_current(),
    {
        self.current
    }

    /// The count since the start.
    pub fn total(&self) -> (r: u64)
        ensures
            r == self.spec_total(),
    {
        self.total
    }

    /// The counts of the past seconds.
    pub fn history(&self) -> (r: &Readings<u16, 300>)
        ensures
            r@ == self.spec_history(),
    {
        &self.history
    }
}

/// Network statistics for a connection or node, by kind of packet.
#[derive(Clone, Debug, PartialEq, Eq)]
pub struct Statistics {
    packets: Count,
    bad_packets: Count,
    initialization_packets: Count,
    poll_packets: Count,
    receive_data_packets: Count,
    transmit_data_packets: Count,
}

/// `after` is `before` with one more packet counted.
pub open spec fn counted(before: Count, after: Count) -> bool {
    &&& after.spec_current() == if before.spec_current() < u16::MAX {
        (before.spec_current() + 1) as u16
    } else {
        before.spec_current()
    }
    &&& after.spec_total() == if before.spec_total() < u64::MAX {
        (before.spec_total() + 1) as u64
    } else {
        before.spec_total()
    }
    &&& after.spec_history() == before.spec_history()
}

/// `after` is `before` with the current second closed.
pub open spec fn ticked(before: Count, after: Count) -> bool {
    &&& after.spec_current() == 0
    &&& after.spec_total() == before.spec_total()
    &&& before.spec_history().len() < READINGS_SIZE ==> after.spec_history() == before.spec_history().push(
        before.spec_current(),
    )
    &&& before.spec_history().len() >= READINGS_SIZE ==> after.spec_history()
        == before.spec_history().drop_first().push(before.spec_current())
}

/// Nothing has been counted.
pub open spec fn is_zero(c: Count) -> bool {
    c.spec_current() == 0 && c.spec_total() == 0 && c.spec_history() == Seq::<u16>::empty()
}

impl Statistics {
    /// All the counts are valid.
    pub open spec fn wf(&self) -> bool {
        &&& self.spec_packets().wf()
        &&& self.spec_bad_packets().wf()
        &&& self.spec_initialization_packets().wf()
        &&& self.spec_poll_packets().wf()
        &&& self.spec_receive_data_packets().wf()
        &&& self.spec_transmit_data_packets().wf()
    }

    /// All packets.
    pub closed spec fn spec_packets(&self) -> Count {
        self.packets
    }

    /// Bad packets.
    pub closed spec fn spec_bad_packets(&self) -> Count {
        self.bad_packets
    }

    /// Initialization packets.
    pub closed spec fn spec_initialization_packets(&self) -> Count {
        self.initialization_packets
    }

    /// Poll requests.
    pub closed spec fn spec_poll_packets(&self) -> Count {
        self.poll_packets
    }

    /// Receive data packets.
    pub closed spec fn spec_receive_data_packets(&self) -> Count {
        self.receive_data_packets
    }

    /// Transmit data packets.
    pub closed spec fn spec_transmit_data_packets(&self) -> Count {
        self.transmit_data_packets
    }

    /// Nothing counted.
    pub fn new() -> (r: Statistics)
        ensures
            r.wf(),
            is_zero(r.spec_packets()),
            is_zero(r.spec_bad_packets()),
            is_zero(r.spec_initialization_packets()),
            is_zero(r.spec_poll_packets()),
            is_zero(r.spec_receive_data_packets()),
            is_zero(r.spec_transmit_data_packets()),
    {
        Statistics {
            packets: Count::new(),
            bad_packets: Count::new(),
            initialization_packets: Count::new(),
            poll_packets: Count::new(),
            receive_data_packets: Count::new(),
            transmit_data_packets: Count::new(),
        }
    }

    /// Count a packet that could not be decoded.
    pub fn got_bad_packet(&mut self)
        requires
            old(self).wf(),
        ensures
            final(self).wf(),
            counted(old(self).spec_packets(), final(self).spec_packets()),
            counted(old(self).spec_bad_packets(), final(self).spec_bad_packets()),
            final(self).spec_initialization_packets() == old(self).spec_initialization_packets(),
            final(self).spec_poll_packets() == old(self).spec_poll_packets(),
            final(self).spec_receive_data_packets() == old(self).spec_receive_data_packets(),
            final(self).spec_transmit_data_packets() == old(self).spec_transmit_data_packets(),
    {
        self.packets.record();
        self.bad_packets.record();
    }

    /// Count a packet, by the kind of its payload.
    pub fn got_packet(&mut self, packet: &Packet)
        requires
            old(self).wf(),
        ensures
            final(self).wf(),
            counted(old(self).spec_packets(), final(self).spec_packets()),
            final(self).spec_bad_packets() == old(self).spec_bad_packets(),
            packet.spec_payload() is Initialization ==> counted(
                old(self).spec_initialization_packets(),
                final(self).spec_initialization_packets(),
            ),
            !(packet.spec_payload() is Initialization) ==> final(self).spec_initialization_packets()
                == old(self).spec_initialization_packets(),
            packet.spec_payload() is PollRequest ==> counted(
                old(self).spec_poll_packets(),
                final(self).spec_poll_packets(),
            ),
            !(packet.spec_payload() is PollRequest) ==> final(self).spec_poll_packets() == old(
            self).spec_poll_packets(),
            packet.spec_payload() is ReceiveData ==> counted(
                old(self).spec_receive_data_packets(),
                final(self).spec_receive_data_packets(),
            ),
            !(packet.spec_payload() is ReceiveData) ==> final(self).spec_receive_data_packets()
                == old(self).spec_receive_data_packets(),
            packet.spec_payload() is TransmitData ==> counted(
                old(self).spec_transmit_data_packets(),
                final(self).spec_transmit_data_packets(),
            ),
            !(packet.spec_payload() is TransmitData) ==> final(self).spec_transmit_data_packets()
                == old(self).spec_transmit_data_packets(),
    {
        self.packets.record();
        match packet.payload() {
            Payload::Initialization { .. } => self.initialization_packets.record(),
            Payload::PollRequest => self.poll_packets.record(),
            Payload::ReceiveData { .. } => self.receive_data_packets.record(),
            Payload::TransmitData { .. } => self.transmit_data_packets.record(),
        }
    }

    /// Close the current second for every count.
    pub fn tick(&mut self)
        requires
            old(self).wf(),
        ensures
            final(self).wf(),
            ticked(old(self).spec_packets(), final(self).spec_packets()),
            ticked(old(self).spec_bad_packets(), final(self).spec_bad_packets()),
            ticked(old(self).spec_initialization_packets(), final(self).spec_initialization_packets()),
            ticked(old(self).spec_poll_packets(), final(self).spec_poll_packets()),
            ticked(old(self).spec_receive_data_packets(), final(self).spec_receive_data_packets()),
            ticked(old(self).spec_transmit_data_packets(), final(self).spec_transmit_data_packets()),
    {
        self.packets.tick();
        self.bad_packets.tick();
        self.initialization_packets.tick();
        self.poll_packets.tick();
        self.receive_data_packets.tick();
        self.transmit_data_packets.tick();
    }

    /// All packets.
    pub fn packets(&self) -> (r: &Count)
        ensures
            r == self.spec_packets(),
    {
        &self.packets
    }

    /// Packets that could not be decoded.
    pub fn bad_packets(&self) -> (r: &Count)
        ensures
            r == self.spec_bad_packets(),
    {
        &self.bad_packets
    }

    /// Initialization packets.
    pub fn initialization_packets(&self) -> (r: &Count)
        ensures
            r == self.spec_initialization_packets(),
    {
        &self.initialization_packets
    }

    /// Poll requests.
    pub fn poll_packets(&self) -> (r: &Count)
        ensures
            r == self.spec_poll_packets(),
    {
        &self.poll_packets
    }

    /// Receive data packets: inputs sent by nodes in reply to a poll request.
    pub fn receive_data_packets(&self) -> (r: &Count)
        ensures
            r == self.spec_receive_data_packets(),
    {
        &self.receive_data_packets
    }

    /// Transmit data packets: outputs sent by the controller to a node.
    pub fn transmit_data_packets(&self) -> (r: &Count)
        ensures
            r == self.spec_transmit_data_packets(),
    {
        &self.transmit_data_packets
    }
}

} // verus!
