//! Addresses of records, and the derivation of a record's address from the
//! seeds that identify it.

use solana_program::pubkey::Pubkey;
use vstd::prelude::*;
use vstd::slice::slice_to_vec;
use vstd::std_specs::cmp::PartialEqSpecImpl;

verus! {

/// Thirty-two zero bytes.
pub const ZERO: [u8; 32] = [
    0, 0, 0, 0, 0, 0, 0, 0, 0, 0, 0, 0, 0, 0, 0, 0, 0, 0, 0, 0, 0, 0, 0, 0, 0, 0, 0, 0, 0, 0, 0, 0,
];

/// The identity of a principal or the place of a record: 32 bytes.
#[derive(Clone, Copy, Debug, Eq)]
pub struct Address {
    pub bytes: [u8; 32],
}

impl View for Address {
    type V = Seq<u8>;

    open spec fn view(&self) -> Seq<u8> {
        self.bytes@
    }
}

impl Address {
    /// The address made of the given bytes.
    pub fn new(bytes: [u8; 32]) -> (address: Address)
        ensures
            address.bytes == bytes,
    {
        Address { bytes }
    }

    /// The bytes of the address.
    pub fn to_bytes(&self) -> (bytes: [u8; 32])
        ensures
            bytes == self.bytes,
    {
        self.bytes
    }

    /// The address whose bytes are all zero: the storage allocator's own,
    /// which also owns every record that has not been created yet.
    pub open spec fn zero() -> Address {
        Address { bytes: ZERO }
    }

    /// Two addresses are the same exactly when they agree byte for byte.
    pub proof fn lemma_same_view(self, other: Address)
        ensures
            (self@ == other@) <==> (self == other),
    {
        if self@ == other@ {
            assert(self.bytes =~= other.bytes);
        }
    }
}

impl Default for Address {
    fn default() -> (address: Address)
        ensures
            address == Address::zero(),
    {
        Address { bytes: ZERO }
    }
}

impl PartialEq for Address {
    fn eq(&self, other: &Address) -> (same: bool) {
        let mut i: usize = 0;
        while i < 32
            invariant
                i <= 32,
                forall|j: int| 0 <= j < i ==> self.bytes[j] == other.bytes[j],
            decreases 32 - i,
        {
            if self.bytes[i] != other.bytes[i] {
                return false;
            }
            i += 1;
        }
        proof {
            assert(self.bytes@ =~= other.bytes@);
            self.lemma_same_view(*other);
        }
        true
    }
}

impl PartialEqSpecImpl for Address {
    open spec fn obeys_eq_spec() -> bool {
        true
    }

    open spec fn eq_spec(&self, other: &Address) -> bool {
        *self == *other
    }
}

/// The domain tag under which configuration records are derived: the
/// letters of "casino".
pub const CASINO_SEED: [u8; 6] = [99, 97, 115, 105, 110, 111];

/// What identifies a record: the seeds from which its address is derived.
#[derive(Clone, Copy, Debug, PartialEq, Eq)]
pub enum RecordKey {
    /// The configuration record of the casino that `authority` owns.
    Casino { authority: Address },
    /// The game record of the wager `game_id`.
    Game { game_id: [u8; 32] },
}

impl RecordKey {
    /// The seeds of the record: the tag "casino" and the authority for a
    /// configuration record, the identifier alone for a game record.
    pub open spec fn spec_seeds(self) -> Seq<Seq<u8>> {
        match self {
            RecordKey::Casino { authority } => seq![CASINO_SEED@, authority@],
            RecordKey::Game { game_id } => seq![game_id@],
        }
    }

    /// The seeds of the record, each as its bytes.
    pub fn seeds(&self) -> (seeds: Vec<Vec<u8>>)
        ensures
            seeds_view(seeds@) == self.spec_seeds(),
    {
        let mut seeds: Vec<Vec<u8>> = Vec::new();
        match self {
            RecordKey::Casino { authority } => {
                seeds.push(slice_to_vec(CASINO_SEED.as_slice()));
                seeds.push(slice_to_vec(authority.bytes.as_slice()));
            },
            RecordKey::Game { game_id } => {
                seeds.push(slice_to_vec(game_id.as_slice()));
            },
        }
        proof {
            assert(seeds_view(seeds@) =~= self.spec_seeds());
        }
        seeds
    }
}

/// The address and bump seed that the host's addressing scheme gives to a
/// list of seeds under a program, if it gives one.
pub uninterp spec fn derived_address(seeds: Seq<Seq<u8>>, program_id: Seq<u8>) -> Option<
    (Seq<u8>, u8),
>;

/// The bytes of each seed of a list.
pub open spec fn seeds_view(seeds: Seq<Vec<u8>>) -> Seq<Seq<u8>> {
    seeds.map_values(|seed: Vec<u8>| seed@)
}

/// A derivation's outcome by the bytes of the address.
pub open spec fn derivation_view(found: Option<(Address, u8)>) -> Option<(Seq<u8>, u8)> {
    match found {
        Some((address, bump)) => Some((address@, bump)),
        None => None,
    }
}

/// Calls `solana_program::pubkey::Pubkey::try_find_program_address`.
///
/// Trusted, not proved: the outcome is a function of the seeds and the
/// program's address alone, here called `derived_address`.  The call does
/// not fail; it answers `None` where the scheme has no address for the
/// seeds.
#[verifier::external_body]
fn try_find_program_address(seeds: &Vec<Vec<u8>>, program_id: &Address) -> (found: Option<
    (Address, u8),
>)
    ensures
        derivation_view(found) == derived_address(seeds_view(seeds@), program_id@),
{
    let parts: Vec<&[u8]> = seeds.iter().map(|seed| seed.as_slice()).collect();
    Pubkey::try_find_program_address(&parts, &Pubkey::new_from_array(program_id.bytes)).map(
        |(key, bump)| (Address { bytes: key.to_bytes() }, bump),
    )
}

/// Derives the address of the record that `key` identifies under
/// `program_id`, with its bump seed.
pub fn find_address(key: &RecordKey, program_id: &Address) -> (found: Option<(Address, u8)>)
    ensures
        derivation_view(found) == derived_address(key.spec_seeds(), program_id@),
{
    let seeds = key.seeds();
    try_find_program_address(&seeds, program_id)
}

} // verus!
