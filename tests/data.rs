use cmri::packet::{Data, Error, Payload, Raw as RawPacket, DATA_MAX_LEN};

#[test]
fn good_size() {
    assert_eq!(Data::new(0).as_slice(), [].as_slice());
    assert_eq!(Data::new(5).as_slice(), [0; 5].as_slice());
    assert_eq!(Data::new(256).as_slice(), [0; 256].as_slice());
}

#[test]
fn valid_index() {
    let packet_data = Data::try_from_slice(
        //  0000_0000    1111_1100
        //  7654_3210    5432_1098
        //  ffff_Tfff    Tfff_fffT
        &[0b0000_1000, 0b1000_0001],
    )
    .unwrap();
    assert!(!packet_data.get_bit(0));
    assert!(packet_data.get_bit(3));
    assert!(packet_data.get_bit(8));
    assert!(packet_data.get_bit(15));
}

#[test]
fn set_bit() {
    let mut packet_data = Data::try_from_slice(&[0b0000_1111]).unwrap();
    assert_eq!(packet_data.as_slice(), &[15]);

    packet_data.set_bit(4, true);
    assert_eq!(packet_data.as_slice(), &[31]);

    packet_data.set_bit(4, false);
    assert_eq!(packet_data.as_slice(), &[15]);
}

#[test]
fn creates_more_space() {
    let mut packet_data = Data::try_from_slice(&[0]).unwrap();

    // Byte 1, bit 2
    packet_data.set_bit(9, true);
    assert_eq!(packet_data.as_slice(), [0, 2]);

    // Byte 3, bit 1
    packet_data.set_bit(24, true);
    assert_eq!(packet_data.as_slice(), [0, 2, 0, 1]);

    // Byte 4, bit 7
    packet_data.set_bit(39, true);
    assert_eq!(packet_data.as_slice(), [0, 2, 0, 1, 128]);

    // Last available bit
    packet_data.set_bit(2047, true);
    assert_eq!(packet_data.get(255), 0b1000_0000);
}

#[test]
fn set_bit_after_clear_fills_with_zeros() {
    let mut packet_data = Data::try_from_slice(&[0xFF, 0xFF, 0xFF]).unwrap();
    packet_data.clear();
    packet_data.set_bit(16, true);
    assert_eq!(packet_data.as_slice(), [0, 0, 1]);
}

#[test]
fn toggle_bit() {
    let mut packet_data = Data::try_from_slice(&[0b0000_1111]).unwrap();
    assert_eq!(packet_data.as_slice(), &[15]);

    packet_data.toggle_bit(4);
    assert_eq!(packet_data.as_slice(), &[31]);

    packet_data.toggle_bit(4);
    assert_eq!(packet_data.as_slice(), &[15]);
}

#[test]
fn data_has_space() {
    let mut packet_data = Data::default();
    assert_eq!(packet_data.push(1), Ok(1));
    packet_data.push(2).unwrap();
    packet_data.push(3).unwrap();
    assert_eq!(packet_data.as_slice(), &[1, 2, 3]);
}

#[test]
fn data_full() {
    let mut packet_data = Data::try_from_slice(&[0; DATA_MAX_LEN - 1]).unwrap();
    assert_eq!(packet_data.push(1), Ok(1));
    assert_eq!(packet_data.push(2), Err(2));
    assert_eq!(packet_data.get(DATA_MAX_LEN - 1), 1);

    let mut packet_data = Data::try_from_slice(&[0; DATA_MAX_LEN - 2]).unwrap();
    assert_eq!(packet_data.push_all(&[1, 2]), Ok(()));
    assert_eq!(packet_data.push_all(&[3, 4]), Err(0));
    assert_eq!(packet_data.as_slice()[(DATA_MAX_LEN - 2)..], [1, 2]);
}

#[test]
fn data_works() {
    let mut packet_data = Data::default();
    assert_eq!(packet_data.push_all(&[1, 2]), Ok(()));
    packet_data.push_all(&[3, 4, 5]).unwrap();
    assert_eq!(packet_data.as_slice(), &[1, 2, 3, 4, 5]);

    let bytes = [1, 255];
    assert_eq!(Data::try_from_slice(&bytes).unwrap().as_slice(), &bytes);
    assert_eq!(Data::try_from_slice(&bytes[0..2]).unwrap().as_slice(), &bytes);
}

#[test]
fn data_too_full() {
    // Pushing 2 bytes when there's only space for 1
    let mut packet_data = Data::try_from_slice(&[0; DATA_MAX_LEN - 3]).unwrap();
    assert_eq!(packet_data.push_all(&[1, 2]), Ok(()));
    assert_eq!(packet_data.push_all(&[3, 4]), Err(1));
    assert_eq!(packet_data.as_slice()[(packet_data.len() - 2)..], [1, 2]);
}

#[test]
fn data_too_long() {
    let slice = [0; DATA_MAX_LEN + 1];
    assert_eq!(Data::try_from_slice(&slice), Err(Error::BodyTooLong));
    assert_eq!(Data::try_from_slice(&slice[0..257]), Err(Error::BodyTooLong));

    let mut data = [0; DATA_MAX_LEN + 2]; // 256 data + 1 for message type + 1 for too much data
    data[0] = b'R';
    assert_eq!(Payload::try_decode(&data), Err(Error::BodyTooLong));
    data[0] = b'T';
    assert_eq!(Payload::try_decode(&data), Err(Error::BodyTooLong));
}

#[test]
fn from_raw_packet() {
    let raw_packet = RawPacket::try_from_slice(&[65, b'T', 1, 2, 3, 4, 5]).unwrap();
    assert_eq!(Data::try_from_slice(&raw_packet.body()).unwrap().as_slice(), [1, 2, 3, 4, 5]);
}

#[test]
fn data_default() {
    let data = Data::default();
    assert_eq!(data.len(), 0);
    assert!(data.is_empty());
    assert_eq!(data.available(), 256);
}
