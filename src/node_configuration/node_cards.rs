//! The input/output cards of a USIC or SUSIC, one at a time and as a collection.
use vstd::prelude::*;

verus! {

/// The most cards that a USIC or SUSIC can hold.
pub const MAX_CARDS: usize = 64;

/// Errors which can happen when decoding or creating the cards of a USIC or SUSIC.
#[derive(Clone, Copy, Debug, PartialEq, Eq, Hash)]
pub enum Error {
    /// Too many cards (must be 64 or less) for a classic USIC or a SUSIC.
    TooManyCards,
    /// An input or output card appears after the first none.
    CardAfterNone,
    /// The bits for a card are 11 (only 00, 01 and 10 are defined).
    InvalidCardType,
}

/// The kinds of card which can sit in a slot of a classic USIC or SUSIC.
#[derive(Clone, Copy, Debug, PartialEq, Eq, Hash)]
pub enum NodeCard {
    /// The slot is empty (bits 00).
    Empty,
    /// The slot holds an input card (bits 01).
    Input,
    /// The slot holds an output card (bits 10).
    Output,
}

/// The two bits that stand for a card.
pub open spec fn card_bits(card: NodeCard) -> u8 {
    match card {
        NodeCard::Empty => 0,
        NodeCard::Input => 1,
        NodeCard::Output => 2,
    }
}

/// The card that two bits stand for, if any.
pub open spec fn card_of_bits(bits: u8) -> Option<NodeCard> {
    if bits == 0 {
        Some(NodeCard::Empty)
    } else if bits == 1 {
        Some(NodeCard::Input)
    } else if bits == 2 {
        Some(NodeCard::Output)
    } else {
        None
    }
}

impl NodeCard {
    /// The card that the two bits `value` stand for; 11 and larger values are refused.
    pub fn try_from_bits(value: u8) -> (r: Result<NodeCard, ()>)
        ensures
            value <= 2 <==> r is Ok,
            r matches Ok(c) ==> card_bits(c) == value && card_of_bits(value) == Some(c),
    {
        if value == 0 {
            Ok(NodeCard::Empty)
        } else if value == 1 {
            Ok(NodeCard::Input)
        } else if value == 2 {
            Ok(NodeCard::Output)
        } else {
            Err(())
        }
    }

    /// The two bits that stand for the card.
    pub fn to_bits(self) -> (r: u8)
        ensures
            r == card_bits(self),
    {
        match self {
            NodeCard::Empty => 0,
            NodeCard::Input => 1,
            NodeCard::Output => 2,
        }
    }
}

impl TryFrom<u8> for NodeCard {
    type Error = ();

    fn try_from(value: u8) -> (r: Result<NodeCard, ()>)
        ensures
            r == card_of_bits(value).ok_or(()),
    {
        if value == 0 {
            Ok(NodeCard::Empty)
        } else if value == 1 {
            Ok(NodeCard::Input)
        } else if value == 2 {
            Ok(NodeCard::Output)
        } else {
            Err(())
        }
    }
}

impl vstd::std_specs::convert::TryFromSpecImpl<u8> for NodeCard {
    open spec fn obeys_try_from_spec() -> bool {
        true
    }

    open spec fn try_from_spec(value: u8) -> Result<NodeCard, ()> {
        card_of_bits(value).ok_or(())
    }
}

impl From<NodeCard> for u8 {
    fn from(value: NodeCard) -> (r: u8)
        ensures
            r == card_bits(value),
    {
        value.to_bits()
    }
}

impl vstd::std_specs::convert::FromSpecImpl<NodeCard> for u8 {
    open spec fn obeys_from_spec() -> bool {
        true
    }

    open spec fn from_spec(value: NodeCard) -> u8 {
        card_bits(value)
    }
}

/// How many times `card` occurs in `cards`.
pub open spec fn count_of(cards: Seq<NodeCard>, card: NodeCard) -> nat
    decreases cards.len(),
{
    if cards.len() == 0 {
        0
    } else {
        count_of(cards.drop_last(), card) + if cards.last() == card {
            1nat
        } else {
            0nat
        }
    }
}

/// The cards of `cards` that are not `Empty`, in order.
pub open spec fn without_none(cards: Seq<NodeCard>) -> Seq<NodeCard>
    decreases cards.len(),
{
    if cards.len() == 0 {
        Seq::empty()
    } else if cards.last() == NodeCard::Empty {
        without_none(cards.drop_last())
    } else {
        without_none(cards.drop_last()).push(cards.last())
    }
}

/// Whether an input or output card follows a `Empty` card in `cards`.
pub open spec fn has_card_after_none(cards: Seq<NodeCard>) -> bool {
    exists|i: int, j: int|
        0 <= i < j < cards.len() && cards[i] == NodeCard::Empty && cards[j] != NodeCard::Empty
}

/// A valid collection of cards: up to 64 input or output cards. A `Empty` slot ends the
/// cards, so it is never stored.
#[derive(Clone, Debug, PartialEq, Eq, Hash)]
pub struct NodeCards {
    cards: Vec<NodeCard>,
    input_cards: u8,
    output_cards: u8,
}

impl View for NodeCards {
    type V = Seq<NodeCard>;

    closed spec fn view(&self) -> Seq<NodeCard> {
        self.cards@
    }
}

proof fn lemma_counts_sum(cards: Seq<NodeCard>)
    requires
        forall|i: int| 0 <= i < cards.len() ==> cards[i] != NodeCard::Empty,
    ensures
        count_of(cards, NodeCard::Input) + count_of(cards, NodeCard::Output) == cards.len(),
    decreases cards.len(),
{
    if cards.len() > 0 {
        lemma_counts_sum(cards.drop_last());
    }
}

impl NodeCards {
    /// The number of input cards.
    pub closed spec fn spec_input_cards(&self) -> nat {
        self.input_cards as nat
    }

    /// The number of output cards.
    pub closed spec fn spec_output_cards(&self) -> nat {
        self.output_cards as nat
    }

    /// At most 64 cards, none of them `Empty`, with the counts of input and output cards.
    pub open spec fn wf(&self) -> bool {
        &&& self@.len() <= MAX_CARDS
        &&& forall|i: int| 0 <= i < self@.len() ==> self@[i] != NodeCard::Empty
        &&& self.spec_input_cards() == count_of(self@, NodeCard::Input)
        &&& self.spec_output_cards() == count_of(self@, NodeCard::Output)
    }

    /// No cards.
    pub fn new() -> (r: NodeCards)
        ensures
            r.wf(),
            r@ == Seq::<NodeCard>::empty(),
    {
        NodeCards { cards: Vec::new(), input_cards: 0, output_cards: 0 }
    }

    /// The cards of `cards` up to the first `Empty`. Fails with `TooManyCards` when there are
    /// more than 64 slots, and with `CardAfterNone` when an input or output card follows a
    /// `Empty`.
    pub fn try_new(cards: &[NodeCard]) -> (r: Result<NodeCards, Error>)
        ensures
            cards@.len() > MAX_CARDS ==> r == Err::<NodeCards, Error>(Error::TooManyCards),
            cards@.len() <= MAX_CARDS && has_card_after_none(cards@) ==> r == Err::<
                NodeCards,
                Error,
            >(Error::CardAfterNone),
            cards@.len() <= MAX_CARDS && !has_card_after_none(cards@) ==> r is Ok,
            r matches Ok(c) ==> c.wf() && c@ == without_none(cards@),
    {
        if cards.len() > MAX_CARDS {
            return Err(Error::TooManyCards);
        }
        let mut node_cards = NodeCards::new();
        let mut none_seen = false;
        let mut i: usize = 0;
        while i < cards.len()
            invariant
                cards@.len() <= MAX_CARDS,
                i <= cards@.len(),
                node_cards.wf(),
                node_cards@ == without_none(cards@.subrange(0, i as int)),
                node_cards@.len() <= i,
                none_seen <==> exists|j: int| 0 <= j < i && cards@[j] == NodeCard::Empty,
                !has_card_after_none(cards@.subrange(0, i as int)),
            decreases cards@.len() - i,
        {
            let card = cards[i];
            proof {
                assert(cards@.subrange(0, i + 1).drop_last() == cards@.subrange(0, i as int));
            }
            match card {
                NodeCard::Empty => {
                    none_seen = true;
                },
                _ => {
                    if none_seen {
                        proof {
                            let j = choose|j: int| 0 <= j < i && cards@[j] == NodeCard::Empty;
                            assert(cards@[j] == NodeCard::Empty && cards@[i as int] != NodeCard::Empty);
                        }
                        return Err(Error::CardAfterNone);
                    }
                    let pushed = node_cards.try_push(card);
                },
            }
            proof {
                let s = cards@.subrange(0, i + 1);
                assert forall|a: int, b: int|
                    0 <= a < b < s.len() && s[a] == NodeCard::Empty implies s[b]
                    == NodeCard::Empty by {
                    if b < i {
                        assert(cards@.subrange(0, i as int)[a] == s[a]);
                        assert(cards@.subrange(0, i as int)[b] == s[b]);
                    } else {
                        assert(cards@[a] == NodeCard::Empty);
                    }
                }
            }
            i += 1;
        }
        assert(cards@.subrange(0, cards@.len() as int) == cards@);
        Ok(node_cards)
    }

    /// Add a card at the end; a `Empty` card adds nothing. Fails when 64 cards are stored.
    pub fn try_push(&mut self, card: NodeCard) -> (r: Result<(), ()>)
        requires
            old(self).wf(),
        ensures
            final(self).wf(),
            old(self)@.len() >= MAX_CARDS ==> r is Err && final(self)@ == old(self)@,
            old(self)@.len() < MAX_CARDS ==> r is Ok,
            old(self)@.len() < MAX_CARDS && card != NodeCard::Empty ==> final(self)@ == old(self)@.push(card),
            card == NodeCard::Empty ==> final(self)@ == old(self)@,
    {
        proof {
            lemma_counts_sum(self.cards@);
        }
        let index = self.len();
        if index >= MAX_CARDS {
            return Err(());
        }
        let ghost before = self.cards@;
        match card {
            NodeCard::Input => {
                self.input_cards = self.input_cards + 1;
                self.cards.push(card);
            },
            NodeCard::Output => {
                self.output_cards = self.output_cards + 1;
                self.cards.push(card);
            },
            NodeCard::Empty => {},
        }
        proof {
            if card != NodeCard::Empty {
                assert(self.cards@.drop_last() == before);
            }
        }
        Ok(())
    }

    /// The number of cards stored.
    pub fn len(&self) -> (r: usize)
        requires
            self.wf(),
        ensures
            r == self@.len(),
    {
        proof {
            lemma_counts_sum(self.cards@);
        }
        self.input_cards as usize + self.output_cards as usize
    }

    /// Whether no card is stored.
    pub fn is_empty(&self) -> (r: bool)
        requires
            self.wf(),
        ensures
            r == (self@.len() == 0),
    {
        proof {
            lemma_counts_sum(self.cards@);
        }
        self.input_cards == 0 && self.output_cards == 0
    }

    /// The stored cards.
    pub fn as_slice(&self) -> (r: &[NodeCard])
        ensures
            r@ == self@,
    {
        self.cards.as_slice()
    }

    /// The card at `index`.
    pub fn get(&self, index: usize) -> (r: NodeCard)
        requires
            index < self@.len(),
        ensures
            r == self@[index as int],
    {
        self.cards[index]
    }

    /// The number of input cards.
    pub fn input_cards(&self) -> (r: u8)
        ensures
            r == self.spec_input_cards(),
    {
        self.input_cards
    }

    /// The number of output cards.
    pub fn output_cards(&self) -> (r: u8)
        ensures
            r == self.spec_output_cards(),
    {
        self.output_cards
    }
}

impl Default for NodeCards {
    fn default() -> (r: NodeCards)
        ensures
            r.wf(),
            r@ == Seq::<NodeCard>::empty(),
    {
        NodeCards::new()
    }
}

/// Every valid collection of cards holds no `Empty` card, so no input or output card
/// follows one, and its input and output cards add up to its length.
pub proof fn lemma_node_cards_invariant(cards: NodeCards)
    requires
        cards.wf(),
    ensures
        !has_card_after_none(cards@),
        cards.spec_input_cards() + cards.spec_output_cards() == cards@.len(),
{
    lemma_counts_sum(cards@);
}

} // verus!
