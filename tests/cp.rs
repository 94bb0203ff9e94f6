use cmri::node_configuration::{
    CpConfigurationError as Error, CpmegaConfiguration, CpmegaOptions, CpnodeConfiguration, CpnodeOptions,
    InvalidConfigurationError, NodeConfiguration,
};
use cmri::packet::Error as PacketError;

fn cp_error(e: Error) -> PacketError {
    PacketError::InvalidConfiguration { source: InvalidConfigurationError::Cp { source: e } }
}

#[test]
fn cp_creates() {
    let c = CpnodeConfiguration::try_new(3, CpnodeOptions::from_bits_retain(4), 5, 6).unwrap();
    assert_eq!(c.transmit_delay(), 3);
    assert_eq!(c.options(), CpnodeOptions::from_bits_retain(4));
    assert_eq!(c.input_bytes(), 5);
    assert_eq!(c.output_bytes(), 6);
}

#[test]
fn creates() {
    let c = CpmegaConfiguration::try_new(3, CpmegaOptions::from_bits_retain(4), 5, 6).unwrap();
    assert_eq!(c.transmit_delay(), 3);
    assert_eq!(c.options(), CpmegaOptions::from_bits_retain(4));
    assert_eq!(c.input_bytes(), 5);
    assert_eq!(c.output_bytes(), 6);
}

#[test]
fn cp_too_few_bytes() {
    assert_eq!(
        CpnodeConfiguration::try_new(0, CpnodeOptions::default(), 0, 1),
        Err(Error::InvalidInputOutputBitsCount(8, 16, 144))
    );
    assert_eq!(
        CpnodeConfiguration::try_new(0, CpnodeOptions::default(), 1, 0),
        Err(Error::InvalidInputOutputBitsCount(8, 16, 144))
    );
}

#[test]
fn too_few_bytes() {
    let raw = [b'C', 15, 240, 255, 0, 0, 0, 255, 255, 255, 255, 255, 255];
    assert_eq!(CpnodeConfiguration::decode(&raw), Err(cp_error(Error::InvalidInputOutputBitsCount(0, 16, 144))));
}

#[test]
fn cp_too_many_bytes() {
    assert_eq!(
        CpnodeConfiguration::try_new(0, CpnodeOptions::default(), 9, 10),
        Err(Error::InvalidInputOutputBitsCount(152, 16, 144))
    );
    assert_eq!(
        CpnodeConfiguration::try_new(0, CpnodeOptions::default(), 12, 13),
        Err(Error::InvalidInputOutputBitsCount(200, 16, 144))
    );

    assert_eq!(
        CpmegaConfiguration::try_new(0, CpmegaOptions::default(), 12, 13),
        Err(Error::InvalidInputOutputBitsCount(200, 0, 192))
    );
    assert_eq!(
        CpmegaConfiguration::try_new(0, CpmegaOptions::default(), 15, 15),
        Err(Error::InvalidInputOutputBitsCount(240, 0, 192))
    );
    let raw = [b'O', 15, 240, 255, 0, 10, 20, 255, 255, 255, 255, 255, 255];
    assert_eq!(CpmegaConfiguration::decode(&raw), Err(cp_error(Error::InvalidInputOutputBitsCount(240, 0, 192))));
}

#[test]
fn too_many_bytes() {
    let raw = [b'C', 15, 240, 255, 0, 10, 20, 255, 255, 255, 255, 255, 255];
    assert_eq!(CpnodeConfiguration::decode(&raw), Err(cp_error(Error::InvalidInputOutputBitsCount(240, 16, 144))));
}

#[test]
fn cp_encode() {
    let c = CpnodeConfiguration::try_new(4080, CpnodeOptions::from_bits_retain(255), 2, 3).unwrap();
    assert_eq!(c.encode().as_slice(), [b'C', 15, 240, 255, 0, 2, 3, 255, 255, 255, 255, 255, 255]);
}

#[test]
fn encode() {
    let c = CpmegaConfiguration::try_new(4080, CpmegaOptions::from_bits_retain(255), 2, 3).unwrap();
    assert_eq!(c.encode().as_slice(), [b'O', 15, 240, 255, 0, 2, 3, 255, 255, 255, 255, 255, 255]);
}

#[test]
fn cp_decodes() {
    let raw = [b'C', 15, 240, 255, 0, 2, 3, 255, 255, 255, 255, 255, 255];
    assert_eq!(
        CpnodeConfiguration::decode(&raw),
        Ok(CpnodeConfiguration::try_new(4080, CpnodeOptions::from_bits_retain(255), 2, 3).unwrap())
    );
}

#[test]
fn decodes() {
    let raw = [b'O', 15, 240, 255, 0, 2, 3, 255, 255, 255, 255, 255, 255];
    assert_eq!(
        CpmegaConfiguration::decode(&raw),
        Ok(CpmegaConfiguration::try_new(4080, CpmegaOptions::from_bits_retain(255), 2, 3).unwrap())
    );
}

#[test]
fn cp_invalid_sort() {
    let raw = [b'Z', 15, 240, 255, 0, 2, 3, 255, 255, 255, 255, 255, 255];
    assert_eq!(CpnodeConfiguration::decode(&raw), Err(PacketError::InvalidNodeType(90)));
}

#[test]
fn invalid_sort() {
    let raw = [b'Z', 15, 240, 255, 0, 2, 3, 255, 255, 255, 255, 255, 255];
    assert_eq!(CpmegaConfiguration::decode(&raw), Err(PacketError::InvalidNodeType(90)));
}

#[test]
fn cp_options() {
    let c = CpnodeConfiguration::try_new(0, CpnodeOptions::from_bits_retain(128), 1, 1).unwrap();
    assert_eq!(c.options(), CpnodeOptions::from_bits_retain(128));
}

#[test]
fn options() {
    let c = CpmegaConfiguration::try_new(0, CpmegaOptions::from_bits_retain(128), 0, 0).unwrap();
    assert_eq!(c.options(), CpmegaOptions::from_bits_retain(128));
}

#[test]
fn cp_node_configuration() {
    let configuration = CpnodeConfiguration::try_new(200, CpnodeOptions::default(), 4, 5).unwrap();
    assert_eq!(configuration.transmit_delay(), 200);
    assert_eq!(configuration.input_bytes(), 4);
    assert_eq!(configuration.output_bytes(), 5);
}

#[test]
fn node_configuration() {
    let configuration = CpmegaConfiguration::try_new(200, CpmegaOptions::default(), 4, 5).unwrap();
    assert_eq!(NodeConfiguration::transmit_delay(&configuration), 200);
    assert_eq!(NodeConfiguration::input_bytes(&configuration), 4);
    assert_eq!(NodeConfiguration::output_bytes(&configuration), 5);
}

#[test]
fn options_keep_every_bit_and_are_little_endian() {
    let options = CpnodeOptions::from_bits_retain(0xA502);
    assert_eq!(options.bits(), 0xA502);
    assert!(options.contains(CpnodeOptions::CAN_SEND_EOT_ON_NO_INPUTS_CHANGED));
    assert!(!options.contains(CpnodeOptions::USE_CMRIX));
    let c = CpnodeConfiguration::try_new(0x1234, options, 1, 1).unwrap();
    assert_eq!(c.encode().as_slice(), [b'C', 0x12, 0x34, 0x02, 0xA5, 1, 1, 255, 255, 255, 255, 255, 255]);
    assert_eq!(CpnodeConfiguration::decode(c.encode().as_slice()), Ok(c));
}

#[test]
fn cp_limits() {
    assert!(CpnodeConfiguration::try_new(0, CpnodeOptions::default(), 2, 0).is_ok());
    assert!(CpnodeConfiguration::try_new(0, CpnodeOptions::default(), 9, 9).is_ok());
    assert!(CpmegaConfiguration::try_new(0, CpmegaOptions::default(), 24, 0).is_ok());
    assert_eq!(
        CpmegaConfiguration::try_new(0, CpmegaOptions::default(), 255, 255),
        Err(Error::InvalidInputOutputBitsCount(4080, 0, 192))
    );
    assert_eq!(CpnodeConfiguration::decode(&[b'C', 0, 0, 0, 0, 1]), Err(PacketError::TooShort));
}
