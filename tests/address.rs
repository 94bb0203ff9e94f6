use cmri::packet::Error;
use cmri::Address;

#[test]
fn address_valid() {
    assert_eq!(Address::try_from_node_address(0).unwrap().as_node_address(), 0);
    assert_eq!(Address::try_from_node_address(127).unwrap().as_node_address(), 127);
}

#[test]
fn valid() {
    assert_eq!(Address::try_from_unit_address(65), Address::try_from_node_address(0));
    assert_eq!(Address::try_from_unit_address(192), Address::try_from_node_address(127));
    assert_eq!(Address::try_from_unit_address(65).unwrap().as_node_address(), 0);
    assert_eq!(Address::try_from_unit_address(192).unwrap().as_node_address(), 127);
}

#[test]
fn address_invalid() {
    assert_eq!(Address::try_from_node_address(128), Err(Error::InvalidNodeAddress(128)));
    assert_eq!(Address::try_from_node_address(255), Err(Error::InvalidNodeAddress(255)));
}

#[test]
fn invalid() {
    assert_eq!(Address::try_from_unit_address(0), Err(Error::InvalidUnitAddress(0)));
    assert_eq!(Address::try_from_unit_address(64), Err(Error::InvalidUnitAddress(64)));
    // 65 - 192 (inclusive) are valid
    assert_eq!(Address::try_from_unit_address(193), Err(Error::InvalidUnitAddress(193)));
    assert_eq!(Address::try_from_unit_address(255), Err(Error::InvalidUnitAddress(255)));
}

#[test]
fn as_node_address() {
    assert_eq!(Address::try_from_node_address(10).unwrap().as_node_address(), 10);
}

#[test]
fn as_unit_address() {
    assert_eq!(Address::try_from_node_address(10).unwrap().as_unit_address(), 75);
}

#[test]
fn address_round_trip_every_value() {
    for n in 0..=255u8 {
        match Address::try_from_node_address(n) {
            Ok(a) => {
                assert!(n <= 127);
                assert_eq!(a.as_unit_address(), n + 65);
                assert_eq!(Address::try_from_unit_address(n + 65), Ok(a));
            }
            Err(e) => {
                assert!(n > 127);
                assert_eq!(e, Error::InvalidNodeAddress(n));
            }
        }
        match Address::try_from_unit_address(n) {
            Ok(a) => {
                assert!((65..=192).contains(&n));
                assert_eq!(a.as_node_address(), n - 65);
            }
            Err(e) => assert_eq!(e, Error::InvalidUnitAddress(n)),
        }
    }
}
