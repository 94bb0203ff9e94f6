use cmri::frame::{Raw as Frame, ReceiveError};
use cmri::node_configuration::node_cards::NodeCard;
use cmri::node_configuration::{CpnodeConfiguration, CpnodeOptions};
use cmri::packet::{Data, Error, Packet, Payload, Raw};
use cmri::{Address, NodeSort};

fn data(bytes: &[u8]) -> Data {
    Data::try_from_slice(bytes).unwrap()
}

fn cpnode(input_bytes: u8, output_bytes: u8, options: u16) -> NodeSort {
    NodeSort::Cpnode {
        configuration: CpnodeConfiguration::try_new(0, CpnodeOptions::from_bits_retain(options), input_bytes, output_bytes)
            .unwrap(),
    }
}

#[test]
fn payload_initialization() {
    let payload = Payload::Initialization { node_sort: cpnode(2, 3, 1) };
    assert_eq!(payload.encode(), [b'I', b'C', 0, 0, 1, 0, 2, 3, 255, 255, 255, 255, 255, 255]);
    assert_eq!(Payload::try_decode(&[b'I', b'C', 0, 0, 1, 0, 2, 3, 255, 255, 255, 255, 255, 255]), Ok(payload));
}

#[test]
fn payload_poll_request() {
    assert_eq!(Payload::PollRequest.encode(), [b'P']);
    assert_eq!(Payload::try_decode(&[b'P']), Ok(Payload::PollRequest));
}

#[test]
fn payload_receive_data() {
    let payload = Payload::ReceiveData { data: data(&[1, 2, 3]) };
    assert_eq!(payload.encode(), [b'R', 1, 2, 3]);
    assert_eq!(Payload::try_decode(&[b'R', 1, 2, 3]), Ok(payload));
}

#[test]
fn payload_transmit_data() {
    let payload = Payload::TransmitData { data: data(&[1, 2, 3]) };
    assert_eq!(payload.encode(), [b'T', 1, 2, 3]);
    assert_eq!(Payload::try_decode(&[b'T', 1, 2, 3]), Ok(payload));
}

#[test]
fn payload_invalid_message_type() {
    assert_eq!(Payload::try_decode(&[0, 1, 2, 3, 4]), Err(Error::InvalidMessageType(0)));
}

#[test]
fn payload_empty_is_too_short() {
    assert_eq!(Payload::try_decode(&[]), Err(Error::TooShort));
}

#[test]
fn getters() {
    let address = Address::try_from_node_address(10).unwrap();
    let payload = Payload::PollRequest;
    let packet = Packet::new_poll_request(address);
    assert_eq!(packet.address(), address);
    assert_eq!(packet.payload(), &payload);
}

#[test]
fn packet_initialization() {
    let configuration = CpnodeConfiguration::try_new(0, CpnodeOptions::default(), 1, 1).unwrap();
    let packet = Packet::new_initialization(
        Address::try_from_node_address(25).unwrap(),
        NodeSort::Cpnode { configuration },
    );
    assert_eq!(packet.address(), Address::try_from_node_address(25).unwrap());
    assert_eq!(packet.payload(), &Payload::Initialization { node_sort: NodeSort::Cpnode { configuration } });
}

#[test]
fn packet_poll_request() {
    let packet = Packet::new_poll_request(Address::try_from_node_address(1).unwrap());
    assert_eq!(packet.address(), Address::try_from_node_address(1).unwrap());
    assert_eq!(packet.payload(), &Payload::PollRequest);
}

#[test]
fn packet_receive_data() {
    let packet = Packet::new_receive_data(Address::try_from_node_address(1).unwrap(), data(&[1, 2, 3, 4]));
    assert_eq!(packet.address(), Address::try_from_node_address(1).unwrap());
    assert_eq!(packet.payload(), &Payload::ReceiveData { data: data(&[1, 2, 3, 4]) });
}

#[test]
fn packet_transmit_data() {
    let packet = Packet::new_transmit_data(Address::try_from_node_address(1).unwrap(), data(&[1, 2, 3, 4]));
    assert_eq!(packet.address(), Address::try_from_node_address(1).unwrap());
    assert_eq!(packet.payload(), &Payload::TransmitData { data: data(&[1, 2, 3, 4]) });
}

#[test]
fn encode_packet() {
    let packet = Packet::new_poll_request(Address::try_from_node_address(64).unwrap());
    assert_eq!(packet.encode_packet().as_slice(), [129, b'P']);
}

#[test]
fn adds_header() {
    let raw = Packet::new_poll_request(Address::try_from_node_address(1).unwrap()).encode_frame();
    assert_eq!(raw.as_slice()[0..3], [0xFF, 0xFF, 0x02]);
}

#[test]
fn adds_trailer() {
    let raw = Packet::new_poll_request(Address::try_from_node_address(0).unwrap()).encode_frame();
    assert_eq!(raw.get(raw.len() - 1), 0x03);
}

#[test]
fn packet_escapes_stx() {
    let raw = Packet::new_receive_data(Address::try_from_node_address(0).unwrap(), data(&[0x02])).encode_frame();
    assert_eq!(raw.as_slice()[5..=6], [0x10, 0x02]);
}

#[test]
fn packet_escapes_etx() {
    let raw = Packet::new_receive_data(Address::try_from_node_address(0).unwrap(), data(&[0x03])).encode_frame();
    assert_eq!(raw.as_slice()[5..=6], [0x10, 0x03]);
}

#[test]
fn packet_escapes_dle() {
    let raw = Packet::new_receive_data(Address::try_from_node_address(0).unwrap(), data(&[0x10])).encode_frame();
    assert_eq!(raw.as_slice()[5..=6], [0x10, 0x10]);
}

#[test]
fn packet_success() {
    let packet = Packet::try_from_raw(&Raw::try_from_slice(&[66, b'P']).unwrap()).unwrap();
    assert_eq!(packet.address().as_node_address(), 1);
    assert_eq!(packet.payload(), &Payload::PollRequest);
}

#[test]
fn bad_address() {
    assert_eq!(Packet::try_from_raw(&Raw::try_from_slice(&[0, b'P']).unwrap()), Err(Error::InvalidUnitAddress(0)));
}

#[test]
fn bad_payload() {
    assert_eq!(Packet::try_from_raw(&Raw::try_from_slice(&[66, 0]).unwrap()), Err(Error::InvalidMessageType(0)));
}

fn round_trip(packet: &Packet) {
    let raw = packet.encode_packet();
    assert_eq!(&raw.try_decode().unwrap(), packet);
    let frame = packet.encode_frame();
    assert_eq!(&frame.try_as_packet().unwrap(), packet);
    let mut receiver = Frame::new();
    let bytes = frame.to_vec();
    for (i, &b) in bytes.iter().enumerate() {
        assert_eq!(receiver.receive(b), Ok(i == bytes.len() - 1));
    }
    assert_eq!(&receiver.try_as_packet().unwrap(), packet);
}

#[test]
fn packet_round_trips() {
    let a = Address::try_from_node_address(0).unwrap();
    let z = Address::try_from_node_address(127).unwrap();
    round_trip(&Packet::new_poll_request(a));
    round_trip(&Packet::new_poll_request(z));
    round_trip(&Packet::new_transmit_data(a, data(&[0xFF, 0x02, 0x03, 0x10, 0x00, 0x41])));
    round_trip(&Packet::new_receive_data(z, data(&[0x10; 256])));
    round_trip(&Packet::new_receive_data(z, data(&[])));
    round_trip(&Packet::new_initialization(a, cpnode(2, 2, 2)));
    round_trip(&Packet::new_initialization(
        z,
        NodeSort::Cpmega {
            configuration: cmri::node_configuration::CpmegaConfiguration::try_new(0x0203, CpnodeOptions::from_bits_retain(0x1002), 0, 24)
                .unwrap(),
        },
    ));
    round_trip(&Packet::new_initialization(
        a,
        NodeSort::try_new_usic(0xFF10, &[NodeCard::Input, NodeCard::Output, NodeCard::Output, NodeCard::Input, NodeCard::Input]).unwrap(),
    ));
    round_trip(&Packet::new_initialization(a, NodeSort::try_new_susic(3, &[NodeCard::Output; 64]).unwrap()));
    round_trip(&Packet::new_initialization(a, NodeSort::try_new_smini(2, [3, 6, 12, 24, 48, 96]).unwrap()));
    round_trip(&Packet::new_initialization(a, NodeSort::try_new_smini(2, [0; 6]).unwrap()));
}

#[test]
fn poll_request_to_node_zero() {
    let packet = Packet::new_poll_request(Address::try_from_node_address(0).unwrap());
    let frame = packet.encode_frame();
    assert_eq!(frame.as_slice(), [0xFF, 0xFF, 0x02, 65, 0x50, 0x03]);
    let mut receiver = Frame::new();
    for b in [0xFF, 0xFF, 0x02, 65, 0x50] {
        assert_eq!(receiver.receive(b), Ok(false));
    }
    assert_eq!(receiver.receive(0x03), Ok(true));
    assert_eq!(receiver.try_as_packet().unwrap(), packet);
}

#[test]
fn transmit_data_with_an_escapable_byte() {
    let packet = Packet::new_transmit_data(Address::try_from_node_address(0).unwrap(), data(&[0x02]));
    assert_eq!(packet.encode_frame().as_slice(), [0xFF, 0xFF, 0x02, 65, 0x54, 0x10, 0x02, 0x03]);
}

#[test]
fn initialization_of_a_cpnode() {
    let packet = Packet::new_initialization(Address::try_from_node_address(0).unwrap(), cpnode(2, 2, 2));
    assert_eq!(
        packet.encode_packet().as_slice(),
        [65, 0x49, 0x43, 0x00, 0x00, 0x02, 0x00, 0x02, 0x02, 0xFF, 0xFF, 0xFF, 0xFF, 0xFF, 0xFF]
    );
    // Every 0x02 of the body, and every reserved 0xFF, is preceded by DLE on the wire.
    let mut expected = vec![0xFF, 0xFF, 0x02, 65, 0x49, 0x43, 0x00, 0x00, 0x10, 0x02, 0x00, 0x10, 0x02, 0x10, 0x02];
    for _ in 0..6 {
        expected.extend([0x10, 0xFF]);
    }
    expected.push(0x03);
    assert_eq!(packet.encode_frame().as_slice(), expected.as_slice());
}

#[test]
fn receive_truncated_frame() {
    let mut receiver = Frame::new();
    for b in [0xFF, 0xFF, 0x02, 65] {
        assert_eq!(receiver.receive(b), Ok(false));
    }
    assert_eq!(receiver.receive(0x03), Err(ReceiveError::TooShort));
    assert_eq!(receiver.len(), 0);
    assert_eq!(receiver.receive_state(), cmri::frame::ReceiveState::WaitingForSyn);
}

#[test]
fn receive_with_resynchronization() {
    let mut receiver = Frame::new();
    let bytes = [0x00, 0x00, 0xFF, 0xFF, 0x02, 65, 0x50, 0x03];
    for (i, &b) in bytes.iter().enumerate() {
        assert_eq!(receiver.receive(b), Ok(i == bytes.len() - 1));
    }
    assert_eq!(
        receiver.try_as_packet().unwrap(),
        Packet::new_poll_request(Address::try_from_node_address(0).unwrap())
    );
}

#[test]
fn feed_hands_out_complete_frames() {
    let mut receiver = Frame::new();
    let bytes = [0xFF, 0x00, 0xFF, 0xFF, 0xFF, 0x02, 66, 0x54, 0x10, 0x03, 0x03];
    let mut frames = Vec::new();
    for b in bytes {
        if let Some(f) = receiver.feed(b) {
            frames.push(f);
        }
    }
    assert_eq!(frames.len(), 1);
    assert_eq!(frames[0].as_slice(), [0xFF, 0xFF, 0x02, 66, 0x54, 0x10, 0x03, 0x03]);
    assert_eq!(receiver.len(), 0);
    assert_eq!(
        frames[0].try_as_packet().unwrap(),
        Packet::new_transmit_data(Address::try_from_node_address(1).unwrap(), data(&[0x03]))
    );
}
