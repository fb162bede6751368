//! Program-derived addresses.

use crate::state::{spec_key_view, Pubkey};
use vstd::prelude::*;

verus! {

/// The address that the host derives from `seeds` for the program with the
/// address `program`, where it finds one.
pub uninterp spec fn spec_program_address(seeds: Seq<Seq<u8>>, program: Seq<u8>) -> Option<Seq<u8>>;

/// The seeds of `seeds`, each as a sequence of bytes.
pub open spec fn spec_parts(seeds: Seq<Vec<u8>>) -> Seq<Seq<u8>> {
    Seq::new(seeds.len(), |i: int| seeds[i]@)
}

/// Calls `Pubkey::try_find_program_address` of `solana_program`: the address
/// found for the seeds and the program is a function of the two alone, here
/// named `spec_program_address`. Nothing more is claimed of it. The bump seed
/// that comes with the address is dropped.
#[verifier::external_body]
pub(crate) fn try_find_program_address(seeds: &Vec<Vec<u8>>, program_id: &Pubkey) -> (r: Option<
    Pubkey,
>)
    ensures
        spec_key_view(r) == spec_program_address(spec_parts(seeds@), program_id@),
{
    let parts: Vec<&[u8]> = seeds.iter().map(|s| s.as_slice()).collect();
    let id = solana_program::pubkey::Pubkey::new_from_array(program_id.0);
    solana_program::pubkey::Pubkey::try_find_program_address(&parts, &id).map(
        |found| Pubkey(found.0.to_bytes()),
    )
}

} // verus!
