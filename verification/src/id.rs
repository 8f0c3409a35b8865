//! The identity of this program on the ledger.

use crate::address::Address;
use vstd::prelude::*;

verus! {

/// The program's address, byte by byte.
pub const ID: [u8; 32] = [
    172, 30, 18, 159, 249, 254, 28, 110, 43, 43, 200, 109, 180, 26, 170, 153,
    107, 172, 207, 226, 155, 216, 121, 206, 191, 87, 179, 132, 0, 0, 0, 0,
];

/// The program's address.
pub open spec fn spec_id() -> Address {
    Address { bytes: ID }
}

/// The program's address.  The addresses of the program's records are
/// derived under it.
#[verifier::when_used_as_spec(spec_id)]
pub fn id() -> (program: Address)
    ensures
        program == spec_id(),
{
    Address { bytes: ID }
}

} // verus!
