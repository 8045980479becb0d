//! Deterministic address derivation: every jar account lives at the
//! address derived from a fixed domain tag, the creator's identity and
//! the jar's uniqueness token, under the program's own identity.  The
//! creator and any tipper recompute the same derivation to locate the
//! jar; the derivation also yields the bump salt stored in the record.

use vstd::prelude::*;
use vstd::bytes::{spec_u64_to_le_bytes, u64_to_le_bytes};
use crate::account::AccountId;

verus! {

/// The domain tag of the jar address derivation: the bytes of `tip_jar`.
pub open spec fn jar_tag() -> Seq<u8> {
    seq![116u8, 105u8, 112u8, 95u8, 106u8, 97u8, 114u8]
}

/// The seeds a jar's address is derived from: the domain tag, the
/// creator's identity, and the uniqueness token in little-endian bytes.
pub open spec fn jar_seeds(authority: Seq<u8>, unique_id: u64) -> Seq<Seq<u8>> {
    seq![jar_tag(), authority, spec_u64_to_le_bytes(unique_id)]
}

/// What the host's program-address derivation returns for the given
/// seeds under the given program identity.  The derivation is a pure
/// hash of its inputs, so the result is a function of the arguments
/// alone; its pages-long definition is not restated here.
pub uninterp spec fn pda_of(seeds: Seq<Seq<u8>>, program: Seq<u8>) -> Option<(Seq<u8>, u8)>;

/// Relies on `Pubkey::try_find_program_address` (solana-pubkey, as
/// re-exported by anchor_lang's prelude): the derived address and bump
/// depend on the seeds and the program identity alone, the address is 32
/// bytes, and `None` comes only in the statistically improbable event
/// that no bump salt yields a valid address.
#[verifier::external_body]
fn try_find_pda(seeds: &Vec<Vec<u8>>, program_id: &AccountId) -> (r: Option<(AccountId, u8)>)
    requires
        program_id@.len() == 32,
    ensures
        match r {
            Some(p) => pda_of(seeds.deep_view(), program_id@) == Some((p.0@, p.1)) && p.0@.len()
                == 32,
            None => pda_of(seeds.deep_view(), program_id@) is None,
        },
{
    let seed_refs: Vec<&[u8]> = seeds.iter().map(|s| s.as_slice()).collect();
    let mut pid = [0u8; 32];
    pid.copy_from_slice(program_id.bytes.as_slice());
    let pk = anchor_lang::prelude::Pubkey::new_from_array(pid);
    match anchor_lang::prelude::Pubkey::try_find_program_address(&seed_refs, &pk) {
        Some((addr, bump)) => Some((AccountId { bytes: addr.to_bytes().to_vec() }, bump)),
        None => None,
    }
}

/// Derives the address of the jar identified by its creator and
/// uniqueness token, together with the bump salt of the derivation,
/// under the given program identity.  Callers on every side recompute
/// this same pure function to locate a jar.
pub fn derive_jar_address(program_id: &AccountId, authority: &AccountId, unique_id: u64) -> (r:
    Option<(AccountId, u8)>)
    requires
        program_id@.len() == 32,
        authority@.len() == 32,
    ensures
        match r {
            Some(p) => pda_of(jar_seeds(authority@, unique_id), program_id@) == Some((
                p.0@,
                p.1,
            )) && p.0.wf(),
            None => pda_of(jar_seeds(authority@, unique_id), program_id@) is None,
        },
{
    let mut tag: Vec<u8> = Vec::new();
    tag.push(116);
    tag.push(105);
    tag.push(112);
    tag.push(95);
    tag.push(106);
    tag.push(97);
    tag.push(114);
    proof {
        assert(tag@ =~= jar_tag());
    }
    let mut seeds: Vec<Vec<u8>> = Vec::new();
    seeds.push(tag);
    seeds.push(authority.duplicate().bytes);
    seeds.push(u64_to_le_bytes(unique_id));
    proof {
        assert(seeds.deep_view() =~~= jar_seeds(authority@, unique_id));
    }
    try_find_pda(&seeds, program_id)
}

} // verus!
