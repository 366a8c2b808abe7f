//! Identities, record addresses and their derivation.
//!
//! Every record lives at an address computed from a namespace tag and the
//! identities the record is about. The computation is the program-derived
//! address search of the Solana runtime, reached through `anchor_lang`; this
//! module fixes which seeds go into it and gives its result a name that the
//! rest of the crate can reason with.

use vstd::prelude::*;
use crate::error::VotingError;

verus! {

/// A 32-byte identity: a caller, a program, or the place where a record lives.
#[derive(Clone, Copy, Debug, PartialEq, Eq, Hash)]
pub struct Address {
    pub bytes: [u8; 32],
}

impl View for Address {
    type V = Seq<u8>;

    open spec fn view(&self) -> Seq<u8> {
        self.bytes@
    }
}

impl Address {
    /// The address made of exactly these bytes.
    pub fn new(bytes: [u8; 32]) -> (a: Address)
        ensures
            a.bytes == bytes,
    {
        Address { bytes }
    }

    /// Byte-wise equality.
    pub fn same_as(&self, other: &Address) -> (same: bool)
        ensures
            same == (self@ == other@),
    {
        let mut i: usize = 0;
        while i < 32
            invariant
                i <= 32,
                forall|k: int| 0 <= k < i ==> self.bytes@[k] == other.bytes@[k],
            decreases 32 - i,
        {
            if self.bytes[i] != other.bytes[i] {
                return false;
            }
            i = i + 1;
        }
        assert(self@ =~= other@);
        true
    }

    /// The bytes of this address as a seed.
    pub fn to_seed(&self) -> (seed: Vec<u8>)
        ensures
            seed@ == self@,
    {
        vstd::slice::slice_to_vec(vstd::array::array_as_slice(&self.bytes))
    }
}

/// The two kinds of record, kept apart by the first seed of their addresses.
#[derive(Clone, Copy, Debug, PartialEq, Eq, Structural)]
pub enum Namespace {
    Poll,
    Vote,
}

impl Namespace {
    /// The tag's bytes: the ASCII text `poll` or `vote`.
    pub open spec fn spec_tag(self) -> Seq<u8> {
        match self {
            Namespace::Poll => seq![0x70u8, 0x6fu8, 0x6cu8, 0x6cu8],
            Namespace::Vote => seq![0x76u8, 0x6fu8, 0x74u8, 0x65u8],
        }
    }

    /// The tag's bytes: the ASCII text `poll` or `vote`.
    pub fn tag(self) -> (tag: Vec<u8>)
        ensures
            tag@ == self.spec_tag(),
    {
        let tag = match self {
            Namespace::Poll => vec![0x70u8, 0x6fu8, 0x6cu8, 0x6cu8],
            Namespace::Vote => vec![0x76u8, 0x6fu8, 0x74u8, 0x65u8],
        };
        assert(tag@ =~= self.spec_tag());
        tag
    }
}

/// The byte strings held by a list of seeds, in order.
pub open spec fn seeds_view(seeds: Seq<Vec<u8>>) -> Seq<Seq<u8>> {
    Seq::new(seeds.len(), |i: int| seeds[i]@)
}

/// The address and bump seed that the program-derived address search yields
/// for `seeds` under `program_id`, or `None` where the search finds nothing.
pub uninterp spec fn derived_address(seeds: Seq<Seq<u8>>, program_id: Seq<u8>) -> Option<
    (Seq<u8>, u8),
>;

/// Calls `Pubkey::try_find_program_address` of `anchor_lang` (the off-chain
/// search: SHA-256 over the seeds, a candidate bump seed, the program id and a
/// fixed marker, repeated with the next bump seed while the digest is a point
/// of the Ed25519 curve). The search reads nothing but its arguments, so its
/// result is named `derived_address`; nothing more is claimed of it. It
/// returns `None` rather than panic when the seeds are too many or too long.
#[verifier::external_body]
fn try_find_program_address(seeds: &Vec<Vec<u8>>, program_id: &Address) -> (found: Option<
    (Address, u8),
>)
    ensures
        match found {
            Some((address, bump)) => derived_address(seeds_view(seeds@), program_id@) == Some(
                (address@, bump),
            ),
            None => derived_address(seeds_view(seeds@), program_id@) is None,
        },
{
    let slices: Vec<&[u8]> = seeds.iter().map(|seed| seed.as_slice()).collect();
    let program = anchor_lang::prelude::Pubkey::new_from_array(program_id.bytes);
    match anchor_lang::prelude::Pubkey::try_find_program_address(&slices, &program) {
        Some((key, bump)) => Some((Address { bytes: key.to_bytes() }, bump)),
        None => None,
    }
}

/// The seeds of a record in `namespace`: its tag, then the two given seeds.
pub open spec fn record_seeds(namespace: Namespace, first: Seq<u8>, second: Seq<u8>) -> Seq<
    Seq<u8>,
> {
    seq![namespace.spec_tag(), first, second]
}

/// Where the poll that `creator` registers under `poll_id` lives.
pub open spec fn poll_address_of(program_id: Seq<u8>, creator: Seq<u8>, poll_id: u64) -> Option<
    (Seq<u8>, u8),
> {
    derived_address(
        record_seeds(Namespace::Poll, creator, vstd::bytes::spec_u64_to_le_bytes(poll_id)),
        program_id,
    )
}

/// Where the record of `voter`'s vote on the poll at `poll_address` lives.
pub open spec fn voter_record_address_of(
    program_id: Seq<u8>,
    voter: Seq<u8>,
    poll_address: Seq<u8>,
) -> Option<(Seq<u8>, u8)> {
    derived_address(record_seeds(Namespace::Vote, voter, poll_address), program_id)
}

/// Whether the derivation found exactly this address.
pub open spec fn derives_to(derived: Option<(Seq<u8>, u8)>, address: Seq<u8>) -> bool {
    match derived {
        Some((found, _)) => found == address,
        None => false,
    }
}

/// What a derivation reports: the address and its bump seed, or the one
/// failure there is.
pub open spec fn derivation_result(
    derived: Option<(Seq<u8>, u8)>,
    r: Result<(Address, u8), VotingError>,
) -> bool {
    match r {
        Ok((address, bump)) => derived == Some((address@, bump)),
        Err(e) => e == VotingError::AddressNotFound && derived is None,
    }
}

/// Derives the address of a record in `namespace` from two seeds. The same
/// arguments always give the same address.
pub fn derive_address(
    program_id: &Address,
    namespace: Namespace,
    first: Vec<u8>,
    second: Vec<u8>,
) -> (r: Result<(Address, u8), VotingError>)
    ensures
        derivation_result(
            derived_address(record_seeds(namespace, first@, second@), program_id@),
            r,
        ),
{
    let ghost expected = record_seeds(namespace, first@, second@);
    let mut seeds: Vec<Vec<u8>> = Vec::new();
    seeds.push(namespace.tag());
    seeds.push(first);
    seeds.push(second);
    assert(seeds_view(seeds@) =~= expected);
    match try_find_program_address(&seeds, program_id) {
        Some(found) => Ok(found),
        None => Err(VotingError::AddressNotFound),
    }
}

/// Derives the address of the poll that `creator` registers under `poll_id`:
/// the seeds are the poll tag, the creator and the identifier in little-endian
/// bytes.
pub fn poll_address(program_id: &Address, creator: &Address, poll_id: u64) -> (r: Result<
    (Address, u8),
    VotingError,
>)
    ensures
        derivation_result(poll_address_of(program_id@, creator@, poll_id), r),
{
    derive_address(
        program_id,
        Namespace::Poll,
        creator.to_seed(),
        vstd::bytes::u64_to_le_bytes(poll_id),
    )
}

/// Derives the address of the record of `voter`'s vote on the poll at
/// `poll_address`: the seeds are the vote tag, the voter and the poll's
/// address, so that polls of different creators never share a vote record.
pub fn voter_record_address(program_id: &Address, voter: &Address, poll_address: &Address) -> (r:
    Result<(Address, u8), VotingError>)
    ensures
        derivation_result(voter_record_address_of(program_id@, voter@, poll_address@), r),
{
    derive_address(program_id, Namespace::Vote, voter.to_seed(), poll_address.to_seed())
}

} // verus!
