//! The five kinds of node, each with its configuration.
use vstd::prelude::*;
use crate::packet::{Data, Error as PacketError};
use super::cp::{cp_decoding, cp_encoding, CpOptions, CpmegaConfiguration, CpnodeConfiguration};
use super::node_cards::{NodeCard, Error as NodeCardsError, has_card_after_none, without_none, MAX_CARDS};
use super::sic::{sic_decoding, sic_encoding, SusicConfiguration, UsicConfiguration};
use super::smini::{smini_decoding, smini_encoding, pair_count, runs_even};
use super::SminiConfiguration;
use super::{
    CpConfigurationError, SminiConfigurationError, NDP_CPMEGA, NDP_CPNODE, NDP_SMINI, NDP_SUSIC,
    NDP_USIC,
};

verus! {

/// Information common to the configuration of all node kinds.
pub trait NodeConfiguration {
    /// The transmit delay, in units of 10 µs.
    spec fn configured_transmit_delay(&self) -> u16;

    /// The number of input bytes.
    spec fn configured_input_bytes(&self) -> u16;

    /// The number of output bytes.
    spec fn configured_output_bytes(&self) -> u16;

    /// The time the node leaves between receiving a request and sending the reply, in
    /// units of 10 µs.
    fn transmit_delay(&self) -> (r: u16)
        ensures
            r == self.configured_transmit_delay(),
    ;

    /// The number of input bytes on the node.
    fn input_bytes(&self) -> (r: u16)
        ensures
            r == self.configured_input_bytes(),
    ;

    /// The number of output bytes on the node.
    fn output_bytes(&self) -> (r: u16)
        ensures
            r == self.configured_output_bytes(),
    ;
}

/// The transmit delay and input and output bytes of a node, whatever its kind.
#[derive(Clone, Copy, Debug, PartialEq, Eq, Hash)]
pub struct ConfigurationSummary {
    /// The transmit delay, in units of 10 µs.
    pub transmit_delay: u16,
    /// The number of input bytes.
    pub input_bytes: u16,
    /// The number of output bytes.
    pub output_bytes: u16,
}

impl ConfigurationSummary {
    /// The number of input bits.
    pub fn input_bits(&self) -> (r: u32)
        ensures
            r == self.input_bytes * 8,
    {
        self.input_bytes as u32 * 8
    }

    /// The number of output bits.
    pub fn output_bits(&self) -> (r: u32)
        ensures
            r == self.output_bytes * 8,
    {
        self.output_bytes as u32 * 8
    }
}

impl NodeConfiguration for ConfigurationSummary {
    open spec fn configured_transmit_delay(&self) -> u16 {
        self.transmit_delay
    }

    open spec fn configured_input_bytes(&self) -> u16 {
        self.input_bytes
    }

    open spec fn configured_output_bytes(&self) -> u16 {
        self.output_bytes
    }

    fn transmit_delay(&self) -> (r: u16) {
        self.transmit_delay
    }

    fn input_bytes(&self) -> (r: u16) {
        self.input_bytes
    }

    fn output_bytes(&self) -> (r: u16) {
        self.output_bytes
    }
}

impl NodeConfiguration for UsicConfiguration {
    open spec fn configured_transmit_delay(&self) -> u16 {
        self.spec_transmit_delay()
    }

    open spec fn configured_input_bytes(&self) -> u16 {
        (self.spec_cards().spec_input_cards() * 3) as u16
    }

    open spec fn configured_output_bytes(&self) -> u16 {
        (self.spec_cards().spec_output_cards() * 3) as u16
    }

    fn transmit_delay(&self) -> (r: u16) {
        UsicConfiguration::transmit_delay(self)
    }

    fn input_bytes(&self) -> (r: u16) {
        UsicConfiguration::input_bytes(self)
    }

    fn output_bytes(&self) -> (r: u16) {
        UsicConfiguration::output_bytes(self)
    }
}

impl NodeConfiguration for SusicConfiguration {
    open spec fn configured_transmit_delay(&self) -> u16 {
        self.spec_transmit_delay()
    }

    open spec fn configured_input_bytes(&self) -> u16 {
        (self.spec_cards().spec_input_cards() * 4) as u16
    }

    open spec fn configured_output_bytes(&self) -> u16 {
        (self.spec_cards().spec_output_cards() * 4) as u16
    }

    fn transmit_delay(&self) -> (r: u16) {
        SusicConfiguration::transmit_delay(self)
    }

    fn input_bytes(&self) -> (r: u16) {
        SusicConfiguration::input_bytes(self)
    }

    fn output_bytes(&self) -> (r: u16) {
        SusicConfiguration::output_bytes(self)
    }
}

impl NodeConfiguration for SminiConfiguration {
    open spec fn configured_transmit_delay(&self) -> u16 {
        self.spec_transmit_delay()
    }

    open spec fn configured_input_bytes(&self) -> u16 {
        3
    }

    open spec fn configured_output_bytes(&self) -> u16 {
        6
    }

    fn transmit_delay(&self) -> (r: u16) {
        SminiConfiguration::transmit_delay(self)
    }

    fn input_bytes(&self) -> (r: u16) {
        SminiConfiguration::input_bytes(self)
    }

    fn output_bytes(&self) -> (r: u16) {
        SminiConfiguration::output_bytes(self)
    }
}

impl NodeConfiguration for CpnodeConfiguration {
    open spec fn configured_transmit_delay(&self) -> u16 {
        self.spec_transmit_delay()
    }

    open spec fn configured_input_bytes(&self) -> u16 {
        self.spec_input_bytes() as u16
    }

    open spec fn configured_output_bytes(&self) -> u16 {
        self.spec_output_bytes() as u16
    }

    fn transmit_delay(&self) -> (r: u16) {
        CpnodeConfiguration::transmit_delay(self)
    }

    fn input_bytes(&self) -> (r: u16) {
        CpnodeConfiguration::input_bytes(self)
    }

    fn output_bytes(&self) -> (r: u16) {
        CpnodeConfiguration::output_bytes(self)
    }
}

impl NodeConfiguration for CpmegaConfiguration {
    open spec fn configured_transmit_delay(&self) -> u16 {
        self.spec_transmit_delay()
    }

    open spec fn configured_input_bytes(&self) -> u16 {
        self.spec_input_bytes() as u16
    }

    open spec fn configured_output_bytes(&self) -> u16 {
        self.spec_output_bytes() as u16
    }

    fn transmit_delay(&self) -> (r: u16) {
        CpmegaConfiguration::transmit_delay(self)
    }

    fn input_bytes(&self) -> (r: u16) {
        CpmegaConfiguration::input_bytes(self)
    }

    fn output_bytes(&self) -> (r: u16) {
        CpmegaConfiguration::output_bytes(self)
    }
}

/// What a node kind with its configuration is, as values.
pub enum NodeSortView {
    /// A classic USIC: transmit delay and cards.
    Usic(u16, Seq<NodeCard>),
    /// A SUSIC: transmit delay and cards.
    Susic(u16, Seq<NodeCard>),
    /// A SMINI: transmit delay and oscillating pairs.
    Smini(u16, Seq<u8>),
    /// A CPNODE: transmit delay, options, input bytes and output bytes.
    Cpnode(u16, u16, u8, u8),
    /// A CPMEGA: transmit delay, options, input bytes and output bytes.
    Cpmega(u16, u16, u8, u8),
}

/// The possible kinds of node, with their configuration.
#[derive(Clone, Debug, PartialEq, Eq, Hash)]
pub enum NodeSort {
    /// A classic USIC with up to 64 cards of 24 bits.
    Usic {
        /// Configuration of the USIC.
        configuration: UsicConfiguration,
    },
    /// A SUSIC with up to 64 cards of 32 bits.
    Susic {
        /// Configuration of the SUSIC.
        configuration: SusicConfiguration,
    },
    /// A SMINI with 24 input bits and 48 output bits.
    Smini {
        /// Configuration of the SMINI.
        configuration: SminiConfiguration,
    },
    /// A CPNODE with 16 to 144 input and output bits.
    Cpnode {
        /// Configuration of the CPNODE.
        configuration: CpnodeConfiguration,
    },
    /// A CPMEGA with 0 to 192 input and output bits.
    Cpmega {
        /// Configuration of the CPMEGA.
        configuration: CpmegaConfiguration,
    },
}

impl View for NodeSort {
    type V = NodeSortView;

    open spec fn view(&self) -> NodeSortView {
        match self {
            NodeSort::Usic { configuration: c } => NodeSortView::Usic(c.spec_transmit_delay(), c.spec_cards()@),
            NodeSort::Susic { configuration: c } => NodeSortView::Susic(c.spec_transmit_delay(), c.spec_cards()@),
            NodeSort::Smini { configuration: c } => NodeSortView::Smini(c.spec_transmit_delay(), c.spec_pairs()),
            NodeSort::Cpnode { configuration: c } => NodeSortView::Cpnode(
                c.spec_transmit_delay(),
                c.spec_options(),
                c.spec_input_bytes(),
                c.spec_output_bytes(),
            ),
            NodeSort::Cpmega { configuration: c } => NodeSortView::Cpmega(
                c.spec_transmit_delay(),
                c.spec_options(),
                c.spec_input_bytes(),
                c.spec_output_bytes(),
            ),
        }
    }
}

/// The body of an initialization message for a node kind and configuration.
pub open spec fn node_sort_encoding(v: NodeSortView) -> Seq<u8> {
    match v {
        NodeSortView::Usic(td, cards) => sic_encoding(NDP_USIC, td, cards),
        NodeSortView::Susic(td, cards) => sic_encoding(NDP_SUSIC, td, cards),
        NodeSortView::Smini(td, pairs) => smini_encoding(td, pair_count(pairs) as u8, pairs),
        NodeSortView::Cpnode(td, o, i, out) => cp_encoding(NDP_CPNODE, td, o, i, out),
        NodeSortView::Cpmega(td, o, i, out) => cp_encoding(NDP_CPMEGA, td, o, i, out),
    }
}

/// What decoding the body of an initialization message gives, by its first byte (the node
/// description parameter).
pub open spec fn node_sort_decoding(raw: Seq<u8>) -> Result<NodeSortView, PacketError> {
    if raw.len() == 0 {
        Err(PacketError::TooShort)
    } else if raw[0] == NDP_CPNODE {
        match cp_decoding(NDP_CPNODE, 16, 144, raw) {
            Ok((td, o, i, out)) => Ok(NodeSortView::Cpnode(td, o, i, out)),
            Err(e) => Err(e),
        }
    } else if raw[0] == NDP_CPMEGA {
        match cp_decoding(NDP_CPMEGA, 0, 192, raw) {
            Ok((td, o, i, out)) => Ok(NodeSortView::Cpmega(td, o, i, out)),
            Err(e) => Err(e),
        }
    } else if raw[0] == NDP_SMINI {
        match smini_decoding(raw) {
            Ok((td, pairs)) => Ok(NodeSortView::Smini(td, pairs)),
            Err(e) => Err(e),
        }
    } else if raw[0] == NDP_USIC {
        match sic_decoding(NDP_USIC, raw) {
            Ok((td, cards)) => Ok(NodeSortView::Usic(td, cards)),
            Err(e) => Err(e),
        }
    } else if raw[0] == NDP_SUSIC {
        match sic_decoding(NDP_SUSIC, raw) {
            Ok((td, cards)) => Ok(NodeSortView::Susic(td, cards)),
            Err(e) => Err(e),
        }
    } else {
        Err(PacketError::InvalidNodeType(raw[0]))
    }
}

impl NodeSort {
    /// The configuration is valid.
    pub open spec fn wf(&self) -> bool {
        match self {
            NodeSort::Usic { configuration: c } => c.wf(),
            NodeSort::Susic { configuration: c } => c.wf(),
            NodeSort::Smini { configuration: c } => c.wf(),
            NodeSort::Cpnode { configuration: c } => c.wf(),
            NodeSort::Cpmega { configuration: c } => c.wf(),
        }
    }

    /// A USIC with the cards of `cards` up to the first `Empty`.
    pub fn try_new_usic(transmit_delay: u16, cards: &[NodeCard]) -> (r: Result<NodeSort, NodeCardsError>)
        ensures
            cards@.len() > MAX_CARDS ==> r == Err::<NodeSort, NodeCardsError>(NodeCardsError::TooManyCards),
            cards@.len() <= MAX_CARDS && has_card_after_none(cards@) ==> r == Err::<NodeSort, NodeCardsError>(
                NodeCardsError::CardAfterNone,
            ),
            cards@.len() <= MAX_CARDS && !has_card_after_none(cards@) ==> r is Ok,
            r matches Ok(n) ==> n.wf() && n@ == NodeSortView::Usic(transmit_delay, without_none(cards@)),
    {
        let configuration = UsicConfiguration::try_new(transmit_delay, cards)?;
        Ok(NodeSort::Usic { configuration })
    }

    /// A SUSIC with the cards of `cards` up to the first `Empty`.
    pub fn try_new_susic(transmit_delay: u16, cards: &[NodeCard]) -> (r: Result<NodeSort, NodeCardsError>)
        ensures
            cards@.len() > MAX_CARDS ==> r == Err::<NodeSort, NodeCardsError>(NodeCardsError::TooManyCards),
            cards@.len() <= MAX_CARDS && has_card_after_none(cards@) ==> r == Err::<NodeSort, NodeCardsError>(
                NodeCardsError::CardAfterNone,
            ),
            cards@.len() <= MAX_CARDS && !has_card_after_none(cards@) ==> r is Ok,
            r matches Ok(n) ==> n.wf() && n@ == NodeSortView::Susic(transmit_delay, without_none(cards@)),
    {
        let configuration = SusicConfiguration::try_new(transmit_delay, cards)?;
        Ok(NodeSort::Susic { configuration })
    }

    /// A SMINI; fails with `NonAdjacent` when a run of set bits in `oscillating_pairs` has
    /// an odd length.
    pub fn try_new_smini(transmit_delay: u16, oscillating_pairs: [u8; 6]) -> (r: Result<NodeSort, SminiConfigurationError>)
        ensures
            runs_even(oscillating_pairs@) <==> r is Ok,
            r matches Ok(n) ==> n.wf() && n@ == NodeSortView::Smini(transmit_delay, oscillating_pairs@),
            r matches Err(e) ==> e == SminiConfigurationError::NonAdjacent,
    {
        let configuration = SminiConfiguration::try_new(transmit_delay, oscillating_pairs)?;
        Ok(NodeSort::Smini { configuration })
    }

    /// A CPNODE; fails unless the input and output bits lie from 16 to 144.
    pub fn try_new_cpnode(transmit_delay: u16, options: CpOptions, input_bytes: u8, output_bytes: u8) -> (r: Result<NodeSort, CpConfigurationError>)
        ensures
            16 <= super::cp::io_bits(input_bytes, output_bytes) <= 144 <==> r is Ok,
            r matches Ok(n) ==> n.wf() && n@ == NodeSortView::Cpnode(transmit_delay, options@, input_bytes, output_bytes),
            r matches Err(e) ==> e == CpConfigurationError::InvalidInputOutputBitsCount(
                super::cp::io_bits(input_bytes, output_bytes) as u16,
                16,
                144,
            ),
    {
        let configuration = CpnodeConfiguration::try_new(transmit_delay, options, input_bytes, output_bytes)?;
        Ok(NodeSort::Cpnode { configuration })
    }

    /// A CPMEGA; fails unless the input and output bits lie from 0 to 192.
    pub fn try_new_cpmega(transmit_delay: u16, options: CpOptions, input_bytes: u8, output_bytes: u8) -> (r: Result<NodeSort, CpConfigurationError>)
        ensures
            super::cp::io_bits(input_bytes, output_bytes) <= 192 <==> r is Ok,
            r matches Ok(n) ==> n.wf() && n@ == NodeSortView::Cpmega(transmit_delay, options@, input_bytes, output_bytes),
            r matches Err(e) ==> e == CpConfigurationError::InvalidInputOutputBitsCount(
                super::cp::io_bits(input_bytes, output_bytes) as u16,
                0,
                192,
            ),
    {
        let configuration = CpmegaConfiguration::try_new(transmit_delay, options, input_bytes, output_bytes)?;
        Ok(NodeSort::Cpmega { configuration })
    }

    /// The transmit delay and the input and output bytes of the node.
    pub fn configuration(&self) -> (r: ConfigurationSummary)
        ensures
            match self {
                NodeSort::Usic { configuration: c } => r.transmit_delay == c.spec_transmit_delay()
                    && r.input_bytes == c.spec_cards().spec_input_cards() * 3
                    && r.output_bytes == c.spec_cards().spec_output_cards() * 3,
                NodeSort::Susic { configuration: c } => r.transmit_delay == c.spec_transmit_delay()
                    && r.input_bytes == c.spec_cards().spec_input_cards() * 4
                    && r.output_bytes == c.spec_cards().spec_output_cards() * 4,
                NodeSort::Smini { configuration: c } => r.transmit_delay == c.spec_transmit_delay()
                    && r.input_bytes == 3 && r.output_bytes == 6,
                NodeSort::Cpnode { configuration: c } => r.transmit_delay == c.spec_transmit_delay()
                    && r.input_bytes == c.spec_input_bytes() && r.output_bytes == c.spec_output_bytes(),
                NodeSort::Cpmega { configuration: c } => r.transmit_delay == c.spec_transmit_delay()
                    && r.input_bytes == c.spec_input_bytes() && r.output_bytes == c.spec_output_bytes(),
            },
    {
        match self {
            NodeSort::Usic { configuration } => ConfigurationSummary {
                transmit_delay: configuration.transmit_delay(),
                input_bytes: configuration.input_bytes(),
                output_bytes: configuration.output_bytes(),
            },
            NodeSort::Susic { configuration } => ConfigurationSummary {
                transmit_delay: configuration.transmit_delay(),
                input_bytes: configuration.input_bytes(),
                output_bytes: configuration.output_bytes(),
            },
            NodeSort::Smini { configuration } => ConfigurationSummary {
                transmit_delay: configuration.transmit_delay(),
                input_bytes: configuration.input_bytes(),
                output_bytes: configuration.output_bytes(),
            },
            NodeSort::Cpnode { configuration } => ConfigurationSummary {
                transmit_delay: configuration.transmit_delay(),
                input_bytes: configuration.input_bytes(),
                output_bytes: configuration.output_bytes(),
            },
            NodeSort::Cpmega { configuration } => ConfigurationSummary {
                transmit_delay: configuration.transmit_delay(),
                input_bytes: configuration.input_bytes(),
                output_bytes: configuration.output_bytes(),
            },
        }
    }

    /// The name of the node kind: `USIC`, `SUSIC`, `SMINI`, `CPNODE` or `CPMEGA`.
    pub fn name(&self) -> (r: &'static str)
        ensures
            self is Usic ==> r@ == "USIC"@,
            self is Susic ==> r@ == "SUSIC"@,
            self is Smini ==> r@ == "SMINI"@,
            self is Cpnode ==> r@ == "CPNODE"@,
            self is Cpmega ==> r@ == "CPMEGA"@,
    {
        match self {
            NodeSort::Usic { .. } => "USIC",
            NodeSort::Susic { .. } => "SUSIC",
            NodeSort::Smini { .. } => "SMINI",
            NodeSort::Cpnode { .. } => "CPNODE",
            NodeSort::Cpmega { .. } => "CPMEGA",
        }
    }

    /// Decode the body of an initialization message, by its node description parameter.
    pub fn try_decode(raw: &[u8]) -> (r: Result<NodeSort, PacketError>)
        ensures
            r matches Ok(n) ==> n.wf() && node_sort_decoding(raw@) == Ok::<NodeSortView, PacketError>(n@),
            r matches Err(e) ==> node_sort_decoding(raw@) == Err::<NodeSortView, PacketError>(e),
    {
        if raw.len() == 0 {
            return Err(PacketError::TooShort);
        }
        let ndp = raw[0];
        if ndp == NDP_CPNODE {
            Ok(NodeSort::Cpnode { configuration: CpnodeConfiguration::decode(raw)? })
        } else if ndp == NDP_CPMEGA {
            Ok(NodeSort::Cpmega { configuration: CpmegaConfiguration::decode(raw)? })
        } else if ndp == NDP_SMINI {
            Ok(NodeSort::Smini { configuration: SminiConfiguration::decode(raw)? })
        } else if ndp == NDP_USIC {
            Ok(NodeSort::Usic { configuration: UsicConfiguration::decode(raw)? })
        } else if ndp == NDP_SUSIC {
            Ok(NodeSort::Susic { configuration: SusicConfiguration::decode(raw)? })
        } else {
            Err(PacketError::InvalidNodeType(ndp))
        }
    }

    /// Encode the configuration as the body of an initialization message.
    pub fn encode(&self) -> (r: Data)
        requires
            self.wf(),
        ensures
            r.wf(),
            r@ == node_sort_encoding(self@),
    {
        match self {
            NodeSort::Usic { configuration } => configuration.encode(),
            NodeSort::Susic { configuration } => configuration.encode(),
            NodeSort::Smini { configuration } => configuration.encode(),
            NodeSort::Cpnode { configuration } => configuration.encode(),
            NodeSort::Cpmega { configuration } => configuration.encode(),
        }
    }
}

/// A node kind and configuration as this library builds them: up to 64 input and output
/// cards, six oscillating pair bytes with even runs, or input and output bits in range.
pub open spec fn node_sort_view_wf(v: NodeSortView) -> bool {
    match v {
        NodeSortView::Usic(_, cards) => cards.len() <= MAX_CARDS && forall|i: int|
            0 <= i < cards.len() ==> cards[i] != NodeCard::Empty,
        NodeSortView::Susic(_, cards) => cards.len() <= MAX_CARDS && forall|i: int|
            0 <= i < cards.len() ==> cards[i] != NodeCard::Empty,
        NodeSortView::Smini(_, pairs) => pairs.len() == 6 && runs_even(pairs),
        NodeSortView::Cpnode(_, _, i, o) => 16 <= super::cp::io_bits(i, o) <= 144,
        NodeSortView::Cpmega(_, _, i, o) => super::cp::io_bits(i, o) <= 192,
    }
}

/// A valid node sort has a valid view.
pub proof fn lemma_node_sort_wf(n: NodeSort)
    requires
        n.wf(),
    ensures
        node_sort_view_wf(n@),
{
}

/// Decoding the body that a valid node kind and configuration encode to gives them back.
pub proof fn lemma_node_sort_round_trip(v: NodeSortView)
    requires
        node_sort_view_wf(v),
    ensures
        node_sort_decoding(node_sort_encoding(v)) == Ok::<NodeSortView, PacketError>(v),
{
    match v {
        NodeSortView::Usic(td, cards) => {
            super::sic::lemma_sic_round_trip(NDP_USIC, td, cards);
        },
        NodeSortView::Susic(td, cards) => {
            super::sic::lemma_sic_round_trip(NDP_SUSIC, td, cards);
        },
        NodeSortView::Smini(td, pairs) => {
            super::smini::lemma_smini_round_trip(td, pairs);
        },
        NodeSortView::Cpnode(td, o, i, out) => {
            super::cp::lemma_cp_round_trip(NDP_CPNODE, 16, 144, td, o, i, out);
        },
        NodeSortView::Cpmega(td, o, i, out) => {
            super::cp::lemma_cp_round_trip(NDP_CPMEGA, 0, 192, td, o, i, out);
        },
    }
}

} // verus!
