//! Configuration of classic USICs (24 bit cards) and SUSICs (32 bit cards).
use vstd::prelude::*;
use crate::packet::{Data, Error as PacketError};
use super::node_cards::{
    card_bits, card_of_bits, has_card_after_none, without_none,
    NodeCard, NodeCards, Error as NodeCardsError, MAX_CARDS,
};
use super::{InvalidConfigurationError, NDP_SUSIC, NDP_USIC};

verus! {

/// The node description parameter of a node whose cards carry `card_bits` bits.
pub open spec fn sic_ndp(card_bits: usize) -> u8 {
    if card_bits == 32 {
        NDP_SUSIC
    } else {
        NDP_USIC
    }
}

/// The byte for cards `4 * group` to `4 * group + 3` of `cards`: two bits per card, the
/// lowest card in the lowest bits, missing cards as 00.
pub open spec fn pack_group(cards: Seq<NodeCard>, group: int) -> u8 {
    let b = |i: int| if 4 * group + i < cards.len() {
        card_bits(cards[4 * group + i])
    } else {
        0u8
    };
    (b(0) | (b(1) << 2u8) | (b(2) << 4u8) | (b(3) << 6u8)) as u8
}

/// The number of bytes that hold `n` cards, four to a byte.
pub open spec fn group_count(n: nat) -> nat {
    (n + 3) / 4
}

/// The encoding of a (S)USIC configuration: the node description parameter, the transmit
/// delay (big-endian), the number of card bytes, then the cards four to a byte.
pub open spec fn sic_encoding(ndp: u8, transmit_delay: u16, cards: Seq<NodeCard>) -> Seq<u8> {
    seq![ndp, (transmit_delay >> 8u16) as u8, (transmit_delay & 0xffu16) as u8, group_count(cards.len()) as u8]
        + Seq::new(group_count(cards.len()), |g: int| pack_group(cards, g))
}

/// The two bits of slot `i` (0 to 3) of a card byte.
pub open spec fn card_code(b: u8, i: int) -> u8 {
    ((b >> (2 * i) as u8) & 3u8) as u8
}

/// The card that a slot code stands for (11 read as empty).
pub open spec fn code_card(code: u8) -> NodeCard {
    card_of_bits(code).unwrap_or(NodeCard::Empty)
}

/// Whether some slot of the card bytes of `raw` (from byte 4 on) holds the undefined bits 11.
pub open spec fn has_invalid_slot(raw: Seq<u8>) -> bool {
    exists|j: int, i: int| 4 <= j < raw.len() && 0 <= i < 4 && card_code(raw[j], i) == 3
}

/// Whether an input or output card sits beyond the 64th slot of `raw`.
pub open spec fn has_card_beyond_max(raw: Seq<u8>) -> bool {
    exists|j: int, i: int| 4 + 16 <= j < raw.len() && 0 <= i < 4 && card_code(raw[j], i) != 0
}

/// The number of the first 64 slots that `raw` holds.
pub open spec fn slot_count(raw: Seq<u8>) -> nat {
    if raw.len() <= 4 {
        0
    } else if raw.len() >= 4 + 16 {
        MAX_CARDS as nat
    } else {
        (4 * (raw.len() - 4)) as nat
    }
}

/// The cards in the first 64 slots of `raw`.
pub open spec fn slot_cards(raw: Seq<u8>) -> Seq<NodeCard> {
    Seq::new(slot_count(raw), |k: int| code_card(card_code(raw[4 + k / 4], k % 4)))
}

/// The big-endian 16-bit number in two bytes.
pub open spec fn be_u16(hi: u8, lo: u8) -> u16 {
    (hi as u16 * 256 + lo as u16) as u16
}

/// The two bytes of a 16-bit number, most significant first, give the number back.
pub proof fn lemma_be_u16(x: u16)
    ensures
        be_u16((x >> 8u16) as u8, (x & 0xffu16) as u8) == x,
{
    assert(x >> 8u16 == x / 256) by (bit_vector);
    assert(x & 0xffu16 == x % 256) by (bit_vector);
}

proof fn lemma_pack_codes(b0: u8, b1: u8, b2: u8, b3: u8)
    requires
        b0 <= 3 && b1 <= 3 && b2 <= 3 && b3 <= 3,
    ensures
        ({
            let x = (b0 | (b1 << 2u8) | (b2 << 4u8) | (b3 << 6u8)) as u8;
            &&& card_code(x, 0) == b0
            &&& card_code(x, 1) == b1
            &&& card_code(x, 2) == b2
            &&& card_code(x, 3) == b3
        }),
{
    let x = (b0 | (b1 << 2u8) | (b2 << 4u8) | (b3 << 6u8)) as u8;
    assert((x >> 0u8) & 3u8 == b0 && (x >> 2u8) & 3u8 == b1 && (x >> 4u8) & 3u8 == b2 && (x >> 6u8) & 3u8
        == b3) by (bit_vector)
        requires
            b0 <= 3 && b1 <= 3 && b2 <= 3 && b3 <= 3,
            x == (b0 | (b1 << 2u8) | (b2 << 4u8) | (b3 << 6u8)) as u8,
    ;
}

proof fn lemma_without_none_of_cards(cards: Seq<NodeCard>)
    requires
        forall|i: int| 0 <= i < cards.len() ==> cards[i] != NodeCard::Empty,
    ensures
        without_none(cards) == cards,
    decreases cards.len(),
{
    if cards.len() > 0 {
        lemma_without_none_of_cards(cards.drop_last());
        assert(cards.drop_last().push(cards.last()) =~= cards);
    }
}

proof fn lemma_without_none_padded(cards: Seq<NodeCard>, slots: Seq<NodeCard>)
    requires
        cards.len() <= slots.len(),
        forall|i: int| 0 <= i < cards.len() ==> cards[i] != NodeCard::Empty && slots[i] == cards[i],
        forall|i: int| cards.len() <= i < slots.len() ==> slots[i] == NodeCard::Empty,
    ensures
        without_none(slots) == cards,
    decreases slots.len(),
{
    if slots.len() > cards.len() {
        lemma_without_none_padded(cards, slots.drop_last());
    } else {
        assert(slots =~= cards);
        lemma_without_none_of_cards(cards);
    }
}

proof fn lemma_encoded_slot(ndp: u8, transmit_delay: u16, cards: Seq<NodeCard>, k: int)
    requires
        cards.len() <= MAX_CARDS,
        0 <= k < 4 * group_count(cards.len()),
    ensures
        ({
            let raw = sic_encoding(ndp, transmit_delay, cards);
            card_code(raw[4 + k / 4], k % 4) == if k < cards.len() {
                card_bits(cards[k])
            } else {
                0u8
            }
        }),
{
    let raw = sic_encoding(ndp, transmit_delay, cards);
    let g = k / 4;
    let b0 = if 4 * g < cards.len() { card_bits(cards[4 * g]) } else { 0u8 };
    let b1 = if 4 * g + 1 < cards.len() { card_bits(cards[4 * g + 1]) } else { 0u8 };
    let b2 = if 4 * g + 2 < cards.len() { card_bits(cards[4 * g + 2]) } else { 0u8 };
    let b3 = if 4 * g + 3 < cards.len() { card_bits(cards[4 * g + 3]) } else { 0u8 };
    assert(raw[4 + g] == pack_group(cards, g));
    assert(pack_group(cards, g) == (b0 | (b1 << 2u8) | (b2 << 4u8) | (b3 << 6u8)) as u8);
    lemma_pack_codes(b0, b1, b2, b3);
    assert(4 * g + k % 4 == k);
}

proof fn lemma_encoded_slots_valid(ndp: u8, transmit_delay: u16, cards: Seq<NodeCard>)
    requires
        cards.len() <= MAX_CARDS,
    ensures
        !has_invalid_slot(sic_encoding(ndp, transmit_delay, cards)),
        !has_card_beyond_max(sic_encoding(ndp, transmit_delay, cards)),
{
    let raw = sic_encoding(ndp, transmit_delay, cards);
    assert(raw.len() == 4 + group_count(cards.len()));
    assert forall|j: int, i: int| 4 <= j < raw.len() && 0 <= i < 4 implies card_code(raw[j], i) != 3 by {
        let k = 4 * (j - 4) + i;
        assert(k / 4 == j - 4 && k % 4 == i);
        lemma_encoded_slot(ndp, transmit_delay, cards, k);
    }
}

proof fn lemma_encoded_slot_cards(ndp: u8, transmit_delay: u16, cards: Seq<NodeCard>)
    requires
        cards.len() <= MAX_CARDS,
        forall|i: int| 0 <= i < cards.len() ==> cards[i] != NodeCard::Empty,
    ensures
        ({
            let slots = slot_cards(sic_encoding(ndp, transmit_delay, cards));
            &&& cards.len() <= slots.len()
            &&& forall|k: int| 0 <= k < cards.len() ==> slots[k] == cards[k]
            &&& forall|k: int| cards.len() <= k < slots.len() ==> slots[k] == NodeCard::Empty
        }),
{
    let raw = sic_encoding(ndp, transmit_delay, cards);
    let slots = slot_cards(raw);
    assert(raw.len() == 4 + group_count(cards.len()));
    assert(slot_count(raw) == 4 * group_count(cards.len()));
    assert forall|k: int| 0 <= k < slots.len() implies slots[k] == if k < cards.len() {
        cards[k]
    } else {
        NodeCard::Empty
    } by {
        lemma_encoded_slot(ndp, transmit_delay, cards, k);
    }
}

/// Decoding the encoding of up to 64 input and output cards gives the transmit delay and the
/// cards back.
pub proof fn lemma_sic_round_trip(ndp: u8, transmit_delay: u16, cards: Seq<NodeCard>)
    requires
        cards.len() <= MAX_CARDS,
        forall|i: int| 0 <= i < cards.len() ==> cards[i] != NodeCard::Empty,
    ensures
        sic_decoding(ndp, sic_encoding(ndp, transmit_delay, cards)) == Ok::<(u16, Seq<NodeCard>), PacketError>(
            (transmit_delay, cards),
        ),
{
    lemma_be_u16(transmit_delay);
    let raw = sic_encoding(ndp, transmit_delay, cards);
    lemma_encoded_slots_valid(ndp, transmit_delay, cards);
    lemma_encoded_slot_cards(ndp, transmit_delay, cards);
    let slots = slot_cards(raw);
    assert(!has_card_after_none(slots));
    lemma_without_none_padded(cards, slots);
}

/// The packet error for a card error.
pub open spec fn sic_error(e: NodeCardsError) -> PacketError {
    PacketError::InvalidConfiguration { source: InvalidConfigurationError::Sic { source: e } }
}

/// What decoding `raw` as a (S)USIC with node description parameter `ndp` gives: the
/// transmit delay and cards, or the error.
pub open spec fn sic_decoding(ndp: u8, raw: Seq<u8>) -> Result<(u16, Seq<NodeCard>), PacketError> {
    if raw.len() == 0 {
        Err(PacketError::TooShort)
    } else if raw[0] != ndp {
        Err(PacketError::InvalidNodeType(raw[0]))
    } else if raw.len() < 3 {
        Err(PacketError::TooShort)
    } else if has_invalid_slot(raw) {
        Err(sic_error(NodeCardsError::InvalidCardType))
    } else if has_card_beyond_max(raw) {
        Err(sic_error(NodeCardsError::TooManyCards))
    } else if has_card_after_none(slot_cards(raw)) {
        Err(sic_error(NodeCardsError::CardAfterNone))
    } else {
        Ok((be_u16(raw[1], raw[2]), without_none(slot_cards(raw))))
    }
}

/// Configuration of a (S)USIC node whose cards carry `CARD_BITS` bits.
#[derive(Clone, Debug, PartialEq, Eq, Hash)]
pub struct SicConfiguration<const CARD_BITS: usize> {
    transmit_delay: u16,
    cards: NodeCards,
}

/// Configuration of a classic USIC, with 24 bit cards.
pub type UsicConfiguration = SicConfiguration<24>;

/// Configuration of a SUSIC, with 32 bit cards.
pub type SusicConfiguration = SicConfiguration<32>;

fn card_of_code(code: u8) -> (r: NodeCard)
    ensures
        r == code_card(code),
{
    if code == 1 {
        NodeCard::Input
    } else if code == 2 {
        NodeCard::Output
    } else {
        NodeCard::Empty
    }
}

fn pack_group_of(cards: &NodeCards, group: usize) -> (r: u8)
    requires
        cards.wf(),
        4 * group < cards@.len(),
    ensures
        r == pack_group(cards@, group as int),
{
    let n = cards.len();
    let b0 = cards.get(4 * group).to_bits();
    let b1 = if 4 * group + 1 < n {
        cards.get(4 * group + 1).to_bits()
    } else {
        0
    };
    let b2 = if 4 * group + 2 < n {
        cards.get(4 * group + 2).to_bits()
    } else {
        0
    };
    let b3 = if 4 * group + 3 < n {
        cards.get(4 * group + 3).to_bits()
    } else {
        0
    };
    b0 | (b1 << 2u8) | (b2 << 4u8) | (b3 << 6u8)
}

impl<const CARD_BITS: usize> SicConfiguration<CARD_BITS> {
    /// The transmit delay.
    pub closed spec fn spec_transmit_delay(&self) -> u16 {
        self.transmit_delay
    }

    /// The cards.
    pub closed spec fn spec_cards(&self) -> NodeCards {
        self.cards
    }

    /// The cards are valid.
    pub open spec fn wf(&self) -> bool {
        self.spec_cards().wf()
    }

    /// A configuration with the cards of `cards` up to the first `Empty`, as
    /// `NodeCards::try_new` takes them.
    pub fn try_new(transmit_delay: u16, cards: &[NodeCard]) -> (r: Result<Self, NodeCardsError>)
        ensures
            cards@.len() > MAX_CARDS ==> r == Err::<Self, NodeCardsError>(NodeCardsError::TooManyCards),
            cards@.len() <= MAX_CARDS && has_card_after_none(cards@) ==> r == Err::<Self, NodeCardsError>(
                NodeCardsError::CardAfterNone,
            ),
            cards@.len() <= MAX_CARDS && !has_card_after_none(cards@) ==> r is Ok,
            r matches Ok(c) ==> c.wf() && c.spec_transmit_delay() == transmit_delay
                && c.spec_cards()@ == without_none(cards@),
    {
        let cards = NodeCards::try_new(cards)?;
        Ok(SicConfiguration { transmit_delay, cards })
    }

    /// The node description parameter: `X` for 32 bit cards, else `N`.
    pub fn ndp() -> (r: u8)
        ensures
            r == sic_ndp(CARD_BITS),
    {
        if CARD_BITS == 32 {
            NDP_SUSIC
        } else {
            NDP_USIC
        }
    }

    /// The cards connected to the node.
    pub fn cards(&self) -> (r: &[NodeCard])
        ensures
            r@ == self.spec_cards()@,
    {
        self.cards.as_slice()
    }

    /// The cards connected to the node, as a collection.
    pub fn node_cards(&self) -> (r: &NodeCards)
        ensures
            r == self.spec_cards(),
    {
        &self.cards
    }

    /// The transmit delay, in units of 10 µs.
    pub fn transmit_delay(&self) -> (r: u16)
        ensures
            r == self.spec_transmit_delay(),
    {
        self.transmit_delay
    }

    /// The number of input bytes: 3 or 4 for each input card, by the card width.
    pub fn input_bytes(&self) -> (r: u16)
        requires
            CARD_BITS <= 32,
        ensures
            r == self.spec_cards().spec_input_cards() * (CARD_BITS / 8),
    {
        let count = self.cards.input_cards();
        let width = (CARD_BITS / 8) as u16;
        proof {
            assert(count as int * width as int <= 1020) by (nonlinear_arith)
                requires
                    count <= 255,
                    width <= 4,
            ;
        }
        count as u16 * width
    }

    /// The number of output bytes: 3 or 4 for each output card, by the card width.
    pub fn output_bytes(&self) -> (r: u16)
        requires
            CARD_BITS <= 32,
        ensures
            r == self.spec_cards().spec_output_cards() * (CARD_BITS / 8),
    {
        let count = self.cards.output_cards();
        let width = (CARD_BITS / 8) as u16;
        proof {
            assert(count as int * width as int <= 1020) by (nonlinear_arith)
                requires
                    count <= 255,
                    width <= 4,
            ;
        }
        count as u16 * width
    }

    /// Decode a configuration from the body of an initialization message (starting with
    /// the node description parameter).
    pub fn decode(raw: &[u8]) -> (r: Result<Self, PacketError>)
        ensures
            r matches Ok(c) ==> c.wf() && sic_decoding(sic_ndp(CARD_BITS), raw@) == Ok::<
                (u16, Seq<NodeCard>),
                PacketError,
            >((c.spec_transmit_delay(), c.spec_cards()@)),
            r matches Err(e) ==> sic_decoding(sic_ndp(CARD_BITS), raw@) == Err::<
                (u16, Seq<NodeCard>),
                PacketError,
            >(e),
    {
        let ndp = Self::ndp();
        if raw.len() == 0 {
            return Err(PacketError::TooShort);
        }
        if raw[0] != ndp {
            return Err(PacketError::InvalidNodeType(raw[0]));
        }
        if raw.len() < 3 {
            return Err(PacketError::TooShort);
        }
        let len = raw.len();
        let mut j: usize = 4;
        while j < len
            invariant
                len == raw@.len() >= 3,
                raw@[0] == sic_ndp(CARD_BITS),
                4 <= j,
                j <= len || j == 4,
                forall|jj: int, i: int| 4 <= jj < j && jj < len && 0 <= i < 4 ==> card_code(raw@[jj], i) != 3,
            decreases len - j,
        {
            let b = raw[j];
            if (b & 3u8) == 3 || ((b >> 2u8) & 3u8) == 3 || ((b >> 4u8) & 3u8) == 3 || ((b >> 6u8) & 3u8) == 3 {
                proof {
                    if (b & 3u8) == 3 {
                        assert(b >> 0u8 == b) by (bit_vector);
                        assert(card_code(raw@[j as int], 0) == 3);
                    } else if ((b >> 2u8) & 3u8) == 3 {
                        assert(card_code(raw@[j as int], 1) == 3);
                    } else if ((b >> 4u8) & 3u8) == 3 {
                        assert(card_code(raw@[j as int], 2) == 3);
                    } else {
                        assert(card_code(raw@[j as int], 3) == 3);
                    }
                }
                return Err(PacketError::InvalidConfiguration {
                    source: InvalidConfigurationError::Sic { source: NodeCardsError::InvalidCardType },
                });
            }
            proof {
                assert(b >> 0u8 == b) by (bit_vector);
                assert forall|i: int| 0 <= i < 4 implies card_code(raw@[j as int], i) != 3 by {
                    if i == 0 {
                    } else if i == 1 {
                    } else if i == 2 {
                    } else {
                    }
                }
            }
            j += 1;
        }
        let mut cards: Vec<NodeCard> = Vec::new();
        j = 4;
        while j < len
            invariant
                len == raw@.len() >= 3,
                raw@[0] == sic_ndp(CARD_BITS),
                4 <= j,
                j <= len || j == 4,
                !has_invalid_slot(raw@),
                j <= 4 + 16 ==> cards@ == slot_cards(raw@).subrange(0, 4 * (j - 4)),
                j > 4 + 16 ==> cards@ == slot_cards(raw@),
                forall|jj: int, i: int| 4 + 16 <= jj < j && jj < len && 0 <= i < 4 ==> card_code(raw@[jj], i) == 0,
            decreases len - j,
        {
            let b = raw[j];
            let c0 = b & 3u8;
            let c1 = (b >> 2u8) & 3u8;
            let c2 = (b >> 4u8) & 3u8;
            let c3 = (b >> 6u8) & 3u8;
            proof {
                assert(b >> 0u8 == b) by (bit_vector);
                assert(c0 == card_code(raw@[j as int], 0));
                assert(c1 == card_code(raw@[j as int], 1));
                assert(c2 == card_code(raw@[j as int], 2));
                assert(c3 == card_code(raw@[j as int], 3));
                assert(c0 != 3 && c1 != 3 && c2 != 3 && c3 != 3);
            }
            if j < 4 + 16 {
                let ghost before = cards@;
                cards.push(card_of_code(c0));
                cards.push(card_of_code(c1));
                cards.push(card_of_code(c2));
                cards.push(card_of_code(c3));
                proof {
                    let sc = slot_cards(raw@);
                    let base = 4 * (j - 4);
                    assert(slot_count(raw@) >= base + 4);
                    assert(base / 4 == j - 4 && base % 4 == 0);
                    assert((base + 1) / 4 == j - 4 && (base + 1) % 4 == 1);
                    assert((base + 2) / 4 == j - 4 && (base + 2) % 4 == 2);
                    assert((base + 3) / 4 == j - 4 && (base + 3) % 4 == 3);
                    assert(cards@ =~= sc.subrange(0, base + 4));
                    if j + 1 > 4 + 16 {
                        assert(slot_count(raw@) == MAX_CARDS);
                        assert(sc.subrange(0, 64) =~= sc);
                    }
                }
            } else if c0 != 0 || c1 != 0 || c2 != 0 || c3 != 0 {
                return Err(PacketError::InvalidConfiguration {
                    source: InvalidConfigurationError::Sic { source: NodeCardsError::TooManyCards },
                });
            }
            proof {
                if j >= 4 + 16 {
                    assert(slot_count(raw@) == MAX_CARDS);
                    assert(slot_cards(raw@).subrange(0, 64) =~= slot_cards(raw@));
                }
            }
            j += 1;
        }
        proof {
            if len <= 4 + 16 {
                if len >= 4 {
                    assert(j == len);
                    assert(slot_count(raw@) == 4 * (len - 4));
                    assert(slot_cards(raw@).subrange(0, 4 * (len - 4)) =~= slot_cards(raw@));
                } else {
                    assert(slot_cards(raw@) =~= Seq::<NodeCard>::empty());
                }
            }
            if len < 4 {
                assert(cards@ =~= slot_cards(raw@));
            }
        }
        let transmit_delay = (raw[1] as u16) * 256 + raw[2] as u16;
        match NodeCards::try_new(cards.as_slice()) {
            Ok(node_cards) => Ok(SicConfiguration { transmit_delay, cards: node_cards }),
            Err(e) => Err(PacketError::InvalidConfiguration {
                source: InvalidConfigurationError::Sic { source: e },
            }),
        }
    }

    /// Encode the configuration as the body of an initialization message. Only the card
    /// bytes up to the last card are written.
    pub fn encode(&self) -> (r: Data)
        requires
            self.wf(),
        ensures
            r.wf(),
            r@ == sic_encoding(sic_ndp(CARD_BITS), self.spec_transmit_delay(), self.spec_cards()@),
    {
        let n = self.cards.len();
        let groups = (n + 3) / 4;
        let mut raw = Data::default();
        let _ = raw.push(Self::ndp());
        let _ = raw.push((self.transmit_delay >> 8u16) as u8);
        let _ = raw.push((self.transmit_delay & 0xffu16) as u8);
        let _ = raw.push(groups as u8);
        let ghost cards = self.spec_cards()@;
        let mut g: usize = 0;
        while g < groups
            invariant
                self.wf(),
                cards == self.spec_cards()@,
                n == cards.len() <= MAX_CARDS,
                groups == group_count(n as nat),
                g <= groups,
                raw.wf(),
                raw@ == seq![sic_ndp(CARD_BITS), (self.spec_transmit_delay() >> 8u16) as u8, (self.spec_transmit_delay() & 0xffu16) as u8, groups as u8]
                    + Seq::new(g as nat, |j: int| pack_group(cards, j)),
            decreases groups - g,
        {
            let byte = pack_group_of(&self.cards, g);
            let _ = raw.push(byte);
            g += 1;
            proof {
                assert(raw@ =~= seq![sic_ndp(CARD_BITS), (self.spec_transmit_delay() >> 8u16) as u8, (self.spec_transmit_delay() & 0xffu16) as u8, groups as u8]
                    + Seq::new(g as nat, |j: int| pack_group(cards, j)));
            }
        }
        raw
    }
}

} // verus!
