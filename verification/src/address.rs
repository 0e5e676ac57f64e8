//! Ethereum addresses and the two addresses that identify a deployment.

use vstd::prelude::*;
use vstd::std_specs::cmp::PartialEqSpecImpl;

verus! {

/// Bytes of the contract whose logs announce account deployments.
pub const DEPLOYER: [u8; 20] = [
    0x5F, 0xF1, 0x37, 0xD4, 0xb0, 0xFD, 0xCD, 0x49, 0xDc, 0xA3,
    0x0c, 0x7C, 0xF5, 0x7E, 0x57, 0x8a, 0x02, 0x6d, 0x27, 0x89,
];

/// Bytes of the factory whose deployments are tracked.
pub const FACTORY: [u8; 20] = [
    0x6E, 0x1b, 0x5A, 0x67, 0xad, 0xD3, 0x2E, 0x8d, 0xC0, 0x34,
    0xc2, 0x3b, 0x80, 0x22, 0xb5, 0x48, 0x21, 0xED, 0x29, 0x7b,
];

/// A 20-byte Ethereum address.
///
/// Two addresses are equal exactly when their bytes are. An address has no
/// textual form here, so letter case never plays a part in a comparison.
#[derive(Clone, Copy, Debug)]
pub struct Address {
    pub bytes: [u8; 20],
}

impl PartialEq for Address {
    fn eq(&self, other: &Self) -> (same: bool) {
        let mut i: usize = 0;
        while i < 20
            invariant
                i <= 20,
                forall|j: int| 0 <= j < i ==> self.bytes[j] == other.bytes[j],
            decreases 20 - i,
        {
            if self.bytes[i] != other.bytes[i] {
                return false;
            }
            i += 1;
        }
        assert(self.bytes =~= other.bytes);
        true
    }
}

impl Eq for Address {}

impl PartialEqSpecImpl for Address {
    open spec fn obeys_eq_spec() -> bool {
        true
    }

    open spec fn eq_spec(&self, other: &Self) -> bool {
        *self == *other
    }
}

impl Address {
    /// The allow-listed deployer contract, as a specification value.
    pub open spec fn spec_deployer() -> Address {
        Address { bytes: DEPLOYER }
    }

    /// The allow-listed factory, as a specification value.
    pub open spec fn spec_factory() -> Address {
        Address { bytes: FACTORY }
    }

    /// The allow-listed deployer contract.
    #[verifier::when_used_as_spec(spec_deployer)]
    pub fn deployer() -> (address: Address)
        ensures
            address == Address::spec_deployer(),
    {
        Address { bytes: DEPLOYER }
    }

    /// The allow-listed factory.
    #[verifier::when_used_as_spec(spec_factory)]
    pub fn factory() -> (address: Address)
        ensures
            address == Address::spec_factory(),
    {
        Address { bytes: FACTORY }
    }

    /// Reads an address from raw bytes: `Some` exactly when there are 20 of
    /// them, and then the address holds those bytes in the same order.
    pub fn from_slice(bytes: &[u8]) -> (address: Option<Address>)
        ensures
            address is Some <==> bytes@.len() == 20,
            address matches Some(a) ==> a.bytes@ == bytes@,
    {
        if bytes.len() != 20 {
            return None;
        }
        let mut out = [0u8; 20];
        let mut i: usize = 0;
        while i < 20
            invariant
                i <= 20,
                bytes@.len() == 20,
                forall|j: int| 0 <= j < i ==> out[j] == bytes@[j],
            decreases 20 - i,
        {
            out[i] = bytes[i];
            i += 1;
        }
        assert(out@ =~= bytes@);
        Some(Address { bytes: out })
    }
}

} // verus!
