//! Deterministic derived addressing.
//!
//! Every stateful record of the protocol lives at a storage address computed
//! from a domain tag and a seed, so the caller and the coordinator can compute
//! a record's location independently and nobody can pre-create a record at a
//! victim's expected address. Derivation is delegated to the program-derived
//! address search of the underlying ledger runtime; this module states its
//! contract and offers an independent verifier for the derivation proof (the
//! bump seed).

use vstd::prelude::*;

use crate::bytes::bytes32_eq;

verus! {

/// The address and bump seed that the program-derived-address search yields
/// for a (domain tag, seed, program id) triple; `None` where no viable bump
/// seed exists or the seeds violate the search's preconditions. The search is
/// a pure function of its arguments.
pub uninterp spec fn pda_of(domain_tag: Seq<u8>, seed: Seq<u8>, program_id: Seq<u8>) -> Option<
    (Seq<u8>, u8),
>;

/// The address that re-derivation with an explicit bump seed yields for a
/// (domain tag, seed, bump, program id) quadruple; `None` where the seeds are
/// rejected or the candidate lies on the curve. Also a pure function of its
/// arguments.
pub uninterp spec fn cpa_of(domain_tag: Seq<u8>, seed: Seq<u8>, bump: u8, program_id: Seq<u8>) -> Option<
    Seq<u8>,
>;

/// Relies on `Pubkey::try_find_program_address` (solana-pubkey, re-exported by
/// anchor_lang): the returned address and bump depend on the seed slices and
/// the program id alone; the returned address is exactly what re-derivation
/// with the returned bump yields; `None` comes only where no viable bump seed
/// exists or a precondition on the seeds is violated.
#[verifier::external_body]
fn try_find_pda(domain_tag: &[u8], seed: &[u8], program_id: &[u8; 32]) -> (r: Option<
    ([u8; 32], u8),
>)
    ensures
        r matches Some(p) ==> pda_of(domain_tag@, seed@, program_id@) == Some((p.0@, p.1)),
        r matches Some(p) ==> cpa_of(domain_tag@, seed@, p.1, program_id@) == Some(p.0@),
        r is None ==> pda_of(domain_tag@, seed@, program_id@) is None,
{
    let program = anchor_lang::prelude::Pubkey::new_from_array(*program_id);
    anchor_lang::prelude::Pubkey::try_find_program_address(&[domain_tag, seed], &program)
        .map(|(address, bump)| (address.to_bytes(), bump))
}

/// Relies on `Pubkey::create_program_address` (solana-pubkey, re-exported by
/// anchor_lang): the returned address depends on the seed slices, the bump and
/// the program id alone; an error (mapped to `None`) comes exactly where the
/// derivation rejects the seeds or the candidate address.
#[verifier::external_body]
fn create_pda(domain_tag: &[u8], seed: &[u8], bump: u8, program_id: &[u8; 32]) -> (r: Option<
    [u8; 32],
>)
    ensures
        r matches Some(a) ==> cpa_of(domain_tag@, seed@, bump, program_id@) == Some(a@),
        r is None ==> cpa_of(domain_tag@, seed@, bump, program_id@) is None,
{
    let program = anchor_lang::prelude::Pubkey::new_from_array(*program_id);
    anchor_lang::prelude::Pubkey::create_program_address(&[domain_tag, seed, &[bump]], &program)
        .ok()
        .map(|address| address.to_bytes())
}

/// Derive the storage address for the record of `domain_tag` keyed by `seed`
/// under the program `program_id`, together with the bump seed that serves as
/// the derivation proof.
///
/// For a fixed triple the same address is always produced, so caller and
/// coordinator agree on every record's location without trusting each other.
pub fn derive_address(domain_tag: &[u8], seed: &[u8], program_id: &[u8; 32]) -> (r: Option<
    ([u8; 32], u8),
>)
    ensures
        r matches Some(p) ==> pda_of(domain_tag@, seed@, program_id@) == Some((p.0@, p.1)),
        r matches Some(p) ==> cpa_of(domain_tag@, seed@, p.1, program_id@) == Some(p.0@),
        r is None ==> pda_of(domain_tag@, seed@, program_id@) is None,
{
    try_find_pda(domain_tag, seed, program_id)
}

/// Check a derivation proof: re-derive the address from the domain tag, the
/// seed and the claimed bump, and compare it with the claimed address. Any
/// party can run this without trusting whoever produced the claim.
pub fn verify_derivation(
    domain_tag: &[u8],
    seed: &[u8],
    bump: u8,
    program_id: &[u8; 32],
    expected: &[u8; 32],
) -> (ok: bool)
    ensures
        ok <==> cpa_of(domain_tag@, seed@, bump, program_id@) == Some(expected@),
{
    match create_pda(domain_tag, seed, bump, program_id) {
        Some(address) => bytes32_eq(&address, expected),
        None => false,
    }
}

} // verus!
