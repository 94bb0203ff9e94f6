//! Node addresses and the unit addresses that stand for them on the wire.
use vstd::prelude::*;
use crate::packet::Error;

verus! {

/// The lowest unit address; node address 0 is sent as this byte.
pub const UNIT_ADDRESS_OFFSET: u8 = 65;

/// The address of a packet or node: a node address from 0 to 127.
#[derive(Clone, Copy, Debug, PartialEq, Eq, PartialOrd, Ord, Hash)]
pub struct Address {
    value: u8,
}

impl View for Address {
    type V = u8;

    /// The node address.
    closed spec fn view(&self) -> u8 {
        self.value
    }
}

/// Whether `u` is a unit address, the byte that stands for a node on the wire.
pub open spec fn is_unit_address(u: u8) -> bool {
    65 <= u <= 192
}

impl Address {
    #[verifier::type_invariant]
    spec fn inv(self) -> bool {
        self.value <= 127
    }

    /// The address of node `address`, which must lie from 0 to 127.
    pub fn try_from_node_address(address: u8) -> (r: Result<Address, Error>)
        ensures
            address <= 127 <==> r is Ok,
            r matches Ok(a) ==> a@ == address,
            address > 127 ==> r == Err::<Address, Error>(Error::InvalidNodeAddress(address)),
    {
        if address <= 127 {
            Ok(Address { value: address })
        } else {
            Err(Error::InvalidNodeAddress(address))
        }
    }

    /// The address whose unit address (the byte on the wire) is `address`, which must lie
    /// from 65 to 192.
    pub fn try_from_unit_address(address: u8) -> (r: Result<Address, Error>)
        ensures
            is_unit_address(address) <==> r is Ok,
            r matches Ok(a) ==> a@ == address - 65,
            !is_unit_address(address) ==> r == Err::<Address, Error>(
                Error::InvalidUnitAddress(address),
            ),
    {
        if address >= 65 && address <= 192 {
            Ok(Address { value: address - UNIT_ADDRESS_OFFSET })
        } else {
            Err(Error::InvalidUnitAddress(address))
        }
    }

    /// The node address (human facing).
    pub fn as_node_address(&self) -> (r: u8)
        ensures
            r == self@,
            r <= 127,
    {
        proof {
            use_type_invariant(self);
        }
        self.value
    }

    /// The unit address (the byte on the wire).
    pub fn as_unit_address(&self) -> (r: u8)
        ensures
            r == self@ + 65,
            is_unit_address(r),
    {
        proof {
            use_type_invariant(self);
        }
        self.value + UNIT_ADDRESS_OFFSET
    }
}

/// A node address `n` (0 to 127) gives the unit address `n + 65`, which lies from 65 to
/// 192 and gives back the node address `n`; a unit address `u` (65 to 192) gives the node
/// address `u - 65`, which lies from 0 to 127 and whose unit address is `u` again.
pub proof fn lemma_address_round_trip(n: u8, u: u8)
    ensures
        n <= 127 ==> is_unit_address((n + 65) as u8) && (((n + 65) as u8) - 65) as u8 == n,
        is_unit_address(u) ==> (u - 65) as u8 <= 127 && (((u - 65) as u8) + 65) as u8 == u,
{
}

} // verus!
