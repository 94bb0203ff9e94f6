use cmri::node_configuration::node_cards::{NodeCard, NodeCards};
use cmri::node_configuration::{
    InvalidConfigurationError, NodeCardsError, NodeConfiguration, SusicConfiguration, UsicConfiguration,
};
use cmri::packet::Error as PacketError;

fn ioo_then_none() -> [NodeCard; 64] {
    let mut cards = [NodeCard::Empty; 64];
    cards[0] = NodeCard::Input;
    cards[1] = NodeCard::Output;
    cards[2] = NodeCard::Output;
    cards
}

fn sic_error(e: NodeCardsError) -> PacketError {
    PacketError::InvalidConfiguration { source: InvalidConfigurationError::Sic { source: e } }
}

#[test]
fn mod_creates() {
    let cards = ioo_then_none();
    let configuration = UsicConfiguration::try_new(10, &cards).unwrap();
    assert_eq!(configuration.transmit_delay(), 10);
    assert_eq!(configuration.node_cards(), &NodeCards::try_new(&cards).unwrap());

    let configuration = SusicConfiguration::try_new(10, &cards).unwrap();
    assert_eq!(configuration.transmit_delay(), 10);
    assert_eq!(configuration.node_cards(), &NodeCards::try_new(&cards).unwrap());
}

#[test]
fn mod_too_many_cards() {
    let cards = [NodeCard::Empty; 65];
    assert_eq!(UsicConfiguration::try_new(0, &cards), Err(NodeCardsError::TooManyCards));
}

#[test]
fn mod_card_after_first_none() {
    assert_eq!(
        UsicConfiguration::try_new(0, &[NodeCard::Empty, NodeCard::Input]),
        Err(NodeCardsError::CardAfterNone)
    );
    assert_eq!(
        SusicConfiguration::try_new(0, &[NodeCard::Empty, NodeCard::Input]),
        Err(NodeCardsError::CardAfterNone)
    );
    assert_eq!(
        SusicConfiguration::decode(&[b'X', 0, 0, 1, 0b1000_0000]),
        Err(sic_error(NodeCardsError::CardAfterNone))
    );
}

#[test]
fn mod_nocards() {
    let configuration = UsicConfiguration::decode(&[b'N', 0x01, 0xF4, 0]).unwrap();
    assert_eq!(configuration.transmit_delay(), 500);
    assert_eq!(configuration.node_cards(), &NodeCards::default());

    let configuration = SusicConfiguration::decode(&[b'X', 0x01, 0xF4, 0]).unwrap();
    assert_eq!(configuration.transmit_delay(), 500);
    assert_eq!(configuration.node_cards(), &NodeCards::default());
    assert_eq!(SusicConfiguration::try_new(500, &[]).unwrap().encode().as_slice(), [b'X', 0x01, 0xF4, 0]);
}

#[test]
fn mod_cards_ioox() {
    let cards = ioo_then_none();
    assert_eq!(
        UsicConfiguration::decode(&[b'N', 0, 0, 1, 0b0010_1001]),
        Ok(UsicConfiguration::try_new(0, &cards).unwrap())
    );
    assert_eq!(
        SusicConfiguration::decode(&[b'X', 0, 0, 1, 0b0010_1001]),
        Ok(SusicConfiguration::try_new(0, &cards).unwrap())
    );
    assert_eq!(SusicConfiguration::try_new(0, &cards).unwrap().encode().as_slice(), [b'X', 0, 0, 1, 0b0010_1001]);
}

#[test]
fn mod_invalid_card_type() {
    assert_eq!(
        UsicConfiguration::decode(&[b'N', 0, 0, 1, 0b0000_0011]),
        Err(sic_error(NodeCardsError::InvalidCardType))
    );
}

#[test]
fn mod_invalid_ndp() {
    assert_eq!(UsicConfiguration::decode(&[b'Z', 0x01, 0x2C, 0]), Err(PacketError::InvalidNodeType(90)));
}

#[test]
fn mod_node_configuration() {
    let configuration = UsicConfiguration::try_new(200, &[NodeCard::Input, NodeCard::Output, NodeCard::Output]).unwrap();
    assert_eq!(configuration.transmit_delay(), 200);
    assert_eq!(configuration.input_bytes(), 3);
    assert_eq!(configuration.output_bytes(), 6);
    assert_eq!(NodeConfiguration::input_bytes(&configuration), 3);

    let configuration = SusicConfiguration::try_new(200, &[NodeCard::Input, NodeCard::Output, NodeCard::Output]).unwrap();
    assert_eq!(configuration.transmit_delay(), 200);
    assert_eq!(configuration.input_bytes(), 4);
    assert_eq!(configuration.output_bytes(), 8);
    assert_eq!(NodeConfiguration::output_bytes(&configuration), 8);
}

#[test]
fn mod_cards() {
    let cards = NodeCards::try_new(&[NodeCard::Input]).unwrap();
    let configuration = UsicConfiguration::try_new(0, cards.as_slice()).unwrap();
    assert_eq!(configuration.cards(), cards.as_slice());
}

#[test]
fn cards() {
    let cards = NodeCards::try_new(&[NodeCard::Output]).unwrap();
    let configuration = UsicConfiguration::try_new(0, cards.as_slice()).unwrap();
    assert_eq!(configuration.cards(), cards.as_slice());
}

#[test]
fn card_after_first_none() {
    assert_eq!(
        UsicConfiguration::decode(&[b'N', 0, 0, 1, 0b1000_0000]),
        Err(sic_error(NodeCardsError::CardAfterNone))
    );
}

#[test]
fn nocards() {
    assert_eq!(UsicConfiguration::try_new(500, &[]).unwrap().encode().as_slice(), [b'N', 0x01, 0xF4, 0]);
}

#[test]
fn cards_ioox() {
    let cards = ioo_then_none();
    assert_eq!(UsicConfiguration::try_new(0, &cards).unwrap().encode().as_slice(), [b'N', 0, 0, 1, 0b0010_1001]);
}

#[test]
fn too_many_cards() {
    let cards = [NodeCard::Empty; 65];
    assert_eq!(SusicConfiguration::try_new(0, &cards), Err(NodeCardsError::TooManyCards));
}

#[test]
fn invalid_card_type() {
    assert_eq!(
        SusicConfiguration::decode(&[b'X', 0, 0, 1, 0b0000_0011]),
        Err(sic_error(NodeCardsError::InvalidCardType))
    );
}

#[test]
fn invalid_ndp() {
    assert_eq!(SusicConfiguration::decode(&[b'Z', 0x01, 0x2C, 0]), Err(PacketError::InvalidNodeType(90)));
}

#[test]
fn usic_encoding_of_six_cards() {
    let cards = [NodeCard::Input, NodeCard::Input, NodeCard::Input, NodeCard::Input, NodeCard::Output, NodeCard::Output];
    let configuration = UsicConfiguration::try_new(0, &cards).unwrap();
    assert_eq!(configuration.encode().as_slice(), [0x4E, 0x00, 0x00, 0x02, 0b0101_0101, 0b0000_1010]);
    assert_eq!(UsicConfiguration::decode(configuration.encode().as_slice()), Ok(configuration));
}

#[test]
fn decode_rejects_cards_beyond_the_last_slot() {
    let mut raw = vec![b'N', 0, 0, 17];
    raw.extend([0b0101_0101; 16]);
    raw.push(0b0000_0001);
    assert_eq!(UsicConfiguration::decode(&raw), Err(sic_error(NodeCardsError::TooManyCards)));
    raw.pop();
    raw.push(0);
    assert_eq!(UsicConfiguration::decode(&raw).unwrap().cards().len(), 64);
    assert_eq!(UsicConfiguration::decode(&[b'N', 0]), Err(PacketError::TooShort));
}
