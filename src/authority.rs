use vstd::prelude::*;
use anchor_lang::prelude::Pubkey;
use crate::address::Address;
use crate::error::AutoVerifyError;
use vstd::string::StringSliceAdditionalSpecFns;
use vstd::utf8::encode_utf8;

verus! {

/// Domain tag placed before the collection seed in every derivation.
pub const COLLECTION_AUTHORITY_SEED: &'static str = "collection_authority";

/// Longest collection seed, in bytes.
pub const MAX_COLLECTION_SEED_LENGTH: usize = 32;

/// The program address and bump that the runtime derives from `seeds` for
/// `program_id`, or `None` when no bump from 255 down to 1 gives an off-curve
/// address.
pub uninterp spec fn program_address_of(seeds: Seq<Seq<u8>>, program_id: Seq<u8>) -> Option<(Seq<u8>, u8)>;

/// Relies on `Pubkey::try_find_program_address` (solana-program, reached through
/// anchor-lang): with at most 16 seeds of at most 32 bytes each it returns the
/// first off-curve address found from bump 255 downwards, a function of the
/// seeds and the program id alone.
#[verifier::external_body]
fn find_program_address(tag: &[u8], seed: &[u8], program_id: &Address) -> (r: Option<(Address, u8)>)
    requires
        tag@.len() <= 32,
        seed@.len() <= 32,
    ensures
        r matches Some((a, b)) ==> program_address_of(seq![tag@, seed@], program_id.bytes@) == Some((a.bytes@, b)),
        r is None ==> program_address_of(seq![tag@, seed@], program_id.bytes@) is None,
{
    let pid = Pubkey::new_from_array(program_id.bytes);
    Pubkey::try_find_program_address(&[tag, seed], &pid).map(|(k, b)| (Address { bytes: k.to_bytes() }, b))
}

pub open spec fn authority_tag() -> Seq<u8> {
    COLLECTION_AUTHORITY_SEED.spec_bytes()
}

/// The authority that `seed` derives for `program_id`, as address bytes and bump.
pub open spec fn collection_authority(seed: Seq<u8>, program_id: Address) -> Option<(Seq<u8>, u8)> {
    program_address_of(seq![authority_tag(), seed], program_id.bytes@)
}

/// The bytes of a seed string.
pub open spec fn seed_bytes(s: Seq<char>) -> Seq<u8> {
    encode_utf8(s)
}

/// What deriving the authority from `seed` yields.
pub open spec fn derivation_result(seed: Seq<u8>, program_id: Address) -> Result<(Seq<u8>, u8), AutoVerifyError> {
    if seed.len() > MAX_COLLECTION_SEED_LENGTH {
        Err(AutoVerifyError::InvalidCollectionSeed)
    } else {
        match collection_authority(seed, program_id) {
            Some(p) => Ok(p),
            None => Err(AutoVerifyError::InvalidCollectionAuthority),
        }
    }
}

/// `r` is what deriving the authority from `seed` returns.
pub open spec fn derived(seed: Seq<u8>, program_id: Address, r: Result<(Address, u8), AutoVerifyError>) -> bool {
    match derivation_result(seed, program_id) {
        Ok((a, b)) => r matches Ok((x, y)) && x.bytes@ == a && y == b,
        Err(e) => r == Err::<(Address, u8), AutoVerifyError>(e),
    }
}

/// Derives the collection authority of `collection_seed`.
pub fn derive_collection_authority(collection_seed: &str, program_id: &Address) -> (r: Result<(Address, u8), AutoVerifyError>)
    ensures
        derived(seed_bytes(collection_seed@), *program_id, r),
{
    let seed = collection_seed.as_bytes();
    if seed.len() > MAX_COLLECTION_SEED_LENGTH {
        return Err(AutoVerifyError::InvalidCollectionSeed);
    }
    let tag = COLLECTION_AUTHORITY_SEED.as_bytes();
    proof {
        reveal_strlit("collection_authority");
        assert(vstd::string::is_ascii(COLLECTION_AUTHORITY_SEED));
        vstd::string::is_ascii_spec_bytes(COLLECTION_AUTHORITY_SEED);
    }
    assert(tag@.len() <= 32);
    match find_program_address(tag, seed, program_id) {
        Some(p) => Ok(p),
        None => Err(AutoVerifyError::InvalidCollectionAuthority),
    }
}

} // verus!
