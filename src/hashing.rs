use vstd::prelude::*;
use vstd::string::StringSliceAdditionalSpecFns;
use crate::address::Address;
use crate::bytes::{le_bytes, push_all, push_le_bytes, push_range};
use crate::error::{CommonError, CommonResult, CustomError};
use crate::address::MAX_SEED_LENGTH;

verus! {

/// The Keccak-256 digest that `solana_program::keccak::hash` gives for `data`.
pub uninterp spec fn keccak256(data: Seq<u8>) -> Seq<u8>;

/// Hash of arbitrary account data.
///
/// Relies on `solana_program::keccak::hash` and `Hash::to_bytes`: the digest
/// depends on the bytes alone.
#[verifier::external_body]
pub fn hash_account_data(data: &[u8]) -> (r: [u8; 32])
    ensures
        r@ == keccak256(data@),
{
    solana_program::keccak::hash(data).to_bytes()
}

/// Hash of `owner ‖ seed`.
pub fn create_account_identifier(owner: &Address, seed: &[u8]) -> (r: [u8; 32])
    ensures
        r@ == keccak256(owner@ + seed@),
{
    let mut combined: Vec<u8> = Vec::new();
    push_all(&mut combined, &owner.bytes);
    push_all(&mut combined, seed);
    proof {
        assert(combined@ =~= owner@ + seed@);
    }
    hash_account_data(combined.as_slice())
}

/// Fails with `AccountValidationFailed` unless `data` hashes to `expected_hash`.
pub fn verify_account_integrity(data: &[u8], expected_hash: &[u8; 32]) -> (r: CommonResult<()>)
    ensures
        r == (if keccak256(data@) == expected_hash@ {
            Ok::<(), CommonError>(())
        } else {
            Err(CommonError::AccountValidationFailed)
        }),
{
    let computed_hash = hash_account_data(data);
    digests_match(&computed_hash, expected_hash)
}

/// Fails with `AccountValidationFailed` unless both digests are equal.
pub fn digests_match(computed: &[u8; 32], expected: &[u8; 32]) -> (r: CommonResult<()>)
    ensures
        r == (if computed@ == expected@ {
            Ok::<(), CommonError>(())
        } else {
            Err(CommonError::AccountValidationFailed)
        }),
{
    if !bytes32_equal(computed, expected) {
        return Err(CommonError::AccountValidationFailed);
    }
    Ok(())
}

/// Whether two 32-byte values are equal.
pub fn bytes32_equal(a: &[u8; 32], b: &[u8; 32]) -> (r: bool)
    ensures
        r == (a@ == b@),
{
    Address { bytes: *a }.equals(&Address { bytes: *b })
}

/// Hash of `base ‖ nonce` (nonce as 8 little-endian bytes).
pub fn generate_account_salt(base_pubkey: &Address, nonce: u64) -> (r: [u8; 32])
    ensures
        r@ == keccak256(base_pubkey@ + le_bytes(nonce as nat, 8)),
{
    let mut data: Vec<u8> = Vec::new();
    push_all(&mut data, &base_pubkey.bytes);
    push_le_bytes(&mut data, nonce, 8);
    hash_account_data(data.as_slice())
}

/// First 16 bytes of `base`, then at most 8 bytes of the identifier (longer
/// identifiers are cut, so two identifiers sharing an 8-byte prefix give the
/// same seed), then the nonce as 4 little-endian bytes.
pub open spec fn deterministic_seed_spec(base: Seq<u8>, id: Seq<u8>, nonce: u32) -> Seq<u8> {
    base.subrange(0, 16) + id.subrange(0, if id.len() < 8 { id.len() as int } else { 8 })
        + le_bytes(nonce as nat, 4)
}

/// Seed material for advanced user accounts; its 28 bytes at most always fit.
pub fn generate_deterministic_seed(base: &Address, identifier: &str, nonce: u32) -> (r: CommonResult<Vec<u8>>)
    ensures
        r is Ok,
        r->Ok_0@ == deterministic_seed_spec(base@, identifier.spec_bytes(), nonce),
        r->Ok_0@.len() <= MAX_SEED_LENGTH,
{
    let mut seed: Vec<u8> = Vec::new();
    push_range(&mut seed, &base.bytes, 0, 16);
    let id_bytes = identifier.as_bytes();
    let id_len: usize = if id_bytes.len() < 8 { id_bytes.len() } else { 8 };
    push_range(&mut seed, id_bytes, 0, id_len);
    push_le_bytes(&mut seed, nonce as u64, 4);
    proof {
        assert(seed@.len() <= 28);
    }
    if seed.len() > MAX_SEED_LENGTH {
        return Err(CommonError::Custom(CustomError::SeedTooLong));
    }
    Ok(seed)
}

/// Last 20 bytes of the parent, the child type, then the child index as 2
/// little-endian bytes.
pub open spec fn hierarchical_seed_spec(parent: Seq<u8>, child_type: u8, child_index: u16) -> Seq<u8> {
    parent.subrange(12, 32) + seq![child_type] + le_bytes(child_index as nat, 2)
}

/// Seed material for nested accounts; its 23 bytes always fit.
pub fn create_hierarchical_seed(parent: &Address, child_type: u8, child_index: u16) -> (r: CommonResult<Vec<u8>>)
    ensures
        r is Ok,
        r->Ok_0@ == hierarchical_seed_spec(parent@, child_type, child_index),
        r->Ok_0@.len() <= MAX_SEED_LENGTH,
{
    let mut seed: Vec<u8> = Vec::new();
    push_range(&mut seed, &parent.bytes, 12, 32);
    seed.push(child_type);
    push_le_bytes(&mut seed, child_index as u64, 2);
    proof {
        assert(seed@ =~= hierarchical_seed_spec(parent@, child_type, child_index));
    }
    if seed.len() > MAX_SEED_LENGTH {
        return Err(CommonError::Custom(CustomError::SeedTooLong));
    }
    Ok(seed)
}

/// Bytes 8 to 24 of the base, then the timestamp as 8 little-endian bytes
/// (two's complement).
pub open spec fn temporal_seed_spec(base: Seq<u8>, timestamp: i64) -> Seq<u8> {
    base.subrange(8, 24) + le_bytes((timestamp as u64) as nat, 8)
}

/// Seed material for temporary accounts.
pub fn generate_temporal_seed(base: &Address, timestamp: i64) -> (r: Vec<u8>)
    ensures
        r@ == temporal_seed_spec(base@, timestamp),
{
    let mut seed: Vec<u8> = Vec::new();
    push_range(&mut seed, &base.bytes, 8, 24);
    push_le_bytes(&mut seed, timestamp as u64, 8);
    seed
}

} // verus!
