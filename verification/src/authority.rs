//! Capability-derived custody authority.
//!
//! Every custody vault is owned by a deterministic, keyless address computed
//! from a fixed tag, the maker's identity and the maker-chosen seed, plus a
//! discriminant byte ("bump") chosen once at creation. `derive` finds the
//! address and its discriminant at creation time; `authorize` reconstructs
//! the address from the stored discriminant and compares it against a vault's
//! recorded owner, failing closed on any mismatch.

use vstd::prelude::*;

use anchor_lang::solana_program::pubkey::Pubkey;

use crate::errors::EscrowError;

verus! {

broadcast use vstd::array::group_array_axioms;

/// The address and discriminant that `Pubkey::try_find_program_address`
/// returns for the given seed material; `None` when no discriminant yields a
/// valid address. The result depends on the arguments alone.
pub uninterp spec fn pda_of(
    tag: Seq<u8>,
    maker: Seq<u8>,
    seed: u64,
    program: Seq<u8>,
) -> Option<(Seq<u8>, u8)>;

/// The address that `Pubkey::create_program_address` derives from the given
/// seed material and discriminant; `None` when that derivation is rejected.
/// The result depends on the arguments alone.
pub uninterp spec fn pda_at(
    tag: Seq<u8>,
    maker: Seq<u8>,
    seed: u64,
    bump: u8,
    program: Seq<u8>,
) -> Option<Seq<u8>>;

/// Relies on `Pubkey::try_find_program_address`: the derived address and
/// discriminant are a pure function of the seeds and program id, and
/// re-deriving with the returned discriminant through
/// `Pubkey::create_program_address` yields the same address.
#[verifier::external_body]
fn find_pda(tag: &Vec<u8>, maker: &[u8; 32], seed: u64, program: &[u8; 32]) -> (r: Option<
    ([u8; 32], u8),
>)
    ensures
        r is Some <==> pda_of(tag@, maker@, seed, program@) is Some,
        r is Some ==> {
            &&& pda_of(tag@, maker@, seed, program@) == Some((r->Some_0.0@, r->Some_0.1))
            &&& pda_at(tag@, maker@, seed, r->Some_0.1, program@) == Some(r->Some_0.0@)
        },
{
    let program_id = Pubkey::new_from_array(*program);
    let seed_bytes = seed.to_le_bytes();
    let (address, bump) = Pubkey::try_find_program_address(
        &[tag.as_slice(), maker.as_slice(), &seed_bytes],
        &program_id,
    )?;
    Some((address.to_bytes(), bump))
}

/// Relies on `Pubkey::create_program_address`: the derived address is a pure
/// function of the seeds, the discriminant and the program id.
#[verifier::external_body]
fn create_pda(tag: &Vec<u8>, maker: &[u8; 32], seed: u64, bump: u8, program: &[u8; 32]) -> (r:
    Option<[u8; 32]>)
    ensures
        r is Some <==> pda_at(tag@, maker@, seed, bump, program@) is Some,
        r is Some ==> pda_at(tag@, maker@, seed, bump, program@) == Some(r->Some_0@),
{
    let program_id = Pubkey::new_from_array(*program);
    let seed_bytes = seed.to_le_bytes();
    let address = Pubkey::create_program_address(
        &[tag.as_slice(), maker.as_slice(), &seed_bytes, &[bump]],
        &program_id,
    ).ok()?;
    Some(address.to_bytes())
}

/// The fixed tag that namespaces every custody derivation: the bytes of
/// "escrow".
pub open spec fn protocol_tag_bytes() -> Seq<u8> {
    seq![101u8, 115u8, 99u8, 114u8, 111u8, 119u8]
}

/// The protocol's own identity, the final seed-material input of every
/// custody derivation.
pub open spec fn program_id_bytes() -> Seq<u8> {
    seq![
        7u8, 1u8, 2u8, 3u8, 4u8, 5u8, 6u8, 7u8, 8u8, 9u8, 10u8, 11u8, 12u8, 13u8, 14u8, 15u8,
        16u8, 17u8, 18u8, 19u8, 20u8, 21u8, 22u8, 23u8, 24u8, 25u8, 26u8, 27u8, 28u8, 29u8, 30u8,
        31u8,
    ]
}

fn protocol_tag() -> (t: Vec<u8>)
    ensures
        t@ == protocol_tag_bytes(),
{
    let t: Vec<u8> = vec![101u8, 115u8, 99u8, 114u8, 111u8, 119u8];
    proof {
        assert(t@ =~= protocol_tag_bytes());
    }
    t
}

fn program_id() -> (p: [u8; 32])
    ensures
        p@ == program_id_bytes(),
{
    let p: [u8; 32] = [
        7u8, 1u8, 2u8, 3u8, 4u8, 5u8, 6u8, 7u8, 8u8, 9u8, 10u8, 11u8, 12u8, 13u8, 14u8, 15u8,
        16u8, 17u8, 18u8, 19u8, 20u8, 21u8, 22u8, 23u8, 24u8, 25u8, 26u8, 27u8, 28u8, 29u8, 30u8,
        31u8,
    ];
    proof {
        assert(p@ =~= program_id_bytes());
    }
    p
}

/// Byte-for-byte equality of two 32-byte addresses.
pub fn bytes32_eq(a: &[u8; 32], b: &[u8; 32]) -> (r: bool)
    ensures
        r == (a@ == b@),
{
    let mut i: usize = 0;
    while i < 32
        invariant
            0 <= i <= 32,
            forall|j: int| 0 <= j < i ==> a@[j] == b@[j],
        decreases 32 - i,
    {
        if a[i] != b[i] {
            proof {
                assert(a@[i as int] != b@[i as int]);
            }
            return false;
        }
        i += 1;
    }
    proof {
        assert(a@ =~= b@);
    }
    true
}

/// What `derive` returns for a maker identity and seed.
pub open spec fn derived_authority(maker: Seq<u8>, seed: u64) -> Option<(Seq<u8>, u8)> {
    pda_of(protocol_tag_bytes(), maker, seed, program_id_bytes())
}

/// What `authorize` reconstructs from a maker identity, seed and
/// discriminant.
pub open spec fn authority_at(maker: Seq<u8>, seed: u64, bump: u8) -> Option<Seq<u8>> {
    pda_at(protocol_tag_bytes(), maker, seed, bump, program_id_bytes())
}

/// The authorization presented to the custodian for a transfer: either the
/// initiating party's own identity (whose signature the host has already
/// verified) or a custody address reconstructed by `authorize`.
#[derive(Debug)]
pub struct Authority {
    /// The address the authorization is valid for.
    pub address: [u8; 32],
}

/// Computes the custody address and discriminant for `(maker, seed)`, used
/// once when an escrow is created. Fails closed when no discriminant yields
/// a valid address.
pub fn derive(maker: &[u8; 32], seed: u64) -> (r: Result<([u8; 32], u8), EscrowError>)
    ensures
        r is Ok <==> derived_authority(maker@, seed) is Some,
        r is Ok ==> {
            &&& derived_authority(maker@, seed) == Some((r->Ok_0.0@, r->Ok_0.1))
            &&& authority_at(maker@, seed, r->Ok_0.1) == Some(r->Ok_0.0@)
        },
        r is Err ==> r->Err_0 == EscrowError::UnauthorizedAuthority,
{
    let tag = protocol_tag();
    let program = program_id();
    match find_pda(&tag, maker, seed, &program) {
        Some(found) => Ok(found),
        None => Err(EscrowError::UnauthorizedAuthority),
    }
}

/// Recomputes the custody address for `(maker, seed, bump)` and compares it
/// against a vault's recorded owner; only on an exact match does it hand out
/// the [`Authority`] that moves funds out of that vault.
pub fn authorize(maker: &[u8; 32], seed: u64, bump: u8, recorded_owner: &[u8; 32]) -> (r: Result<
    Authority,
    EscrowError,
>)
    ensures
        r is Ok <==> authority_at(maker@, seed, bump) == Some(recorded_owner@),
        r is Ok ==> r->Ok_0.address@ == recorded_owner@,
        r is Err ==> r->Err_0 == EscrowError::UnauthorizedAuthority,
{
    let tag = protocol_tag();
    let program = program_id();
    match create_pda(&tag, maker, seed, bump, &program) {
        Some(address) => {
            if bytes32_eq(&address, recorded_owner) {
                Ok(Authority { address })
            } else {
                Err(EscrowError::UnauthorizedAuthority)
            }
        },
        None => Err(EscrowError::UnauthorizedAuthority),
    }
}

} // verus!
