use vstd::prelude::*;
use vstd::string::StringSliceAdditionalSpecFns;
use crate::address::{
    found_address, find_program_address, seeds_view, validate_not_default, zero_address, Address,
    MAX_SEED_LENGTH,
};
use crate::bytes::{le_bytes, push_all, push_le_bytes, push_range};
use crate::error::{CommonError, CommonResult, CustomError};
use crate::hashing::{deterministic_seed_spec, generate_deterministic_seed, hash_account_data, keccak256};

verus! {

/// A derived address with its bump byte, as plain values.
pub open spec fn pda_view(r: CommonResult<(Address, u8)>) -> Result<(Seq<u8>, u8), CommonError> {
    match r {
        Ok(p) => Ok((p.0@, p.1)),
        Err(e) => Err(e),
    }
}

/// The outcome of a bump search: `NoViableBump` where none exists, and
/// `AccountValidationFailed` where it gives the all-zero address.
pub open spec fn search_spec(seeds: Seq<Seq<u8>>, program_id: Seq<u8>) -> Result<(Seq<u8>, u8), CommonError> {
    match found_address(seeds, program_id) {
        None => Err(CommonError::Custom(CustomError::NoViableBump)),
        Some(p) => if p.0 == zero_address() {
            Err(CommonError::AccountValidationFailed)
        } else {
            Ok(p)
        },
    }
}

/// Checked derivation: every seed part fits, a bump exists, and the result is
/// not the all-zero address.
pub open spec fn derive_spec(seeds: Seq<Seq<u8>>, program_id: Seq<u8>) -> Result<(Seq<u8>, u8), CommonError> {
    if exists|i: int| 0 <= i < seeds.len() && #[trigger] seeds[i].len() > MAX_SEED_LENGTH {
        Err(CommonError::Custom(CustomError::SeedTooLong))
    } else {
        search_spec(seeds, program_id)
    }
}

/// The bytes of `program_state`.
pub open spec fn program_state_tag() -> Seq<u8> {
    seq![112u8, 114, 111, 103, 114, 97, 109, 95, 115, 116, 97, 116, 101]
}

/// The bytes of `user`.
pub open spec fn user_tag() -> Seq<u8> {
    seq![117u8, 115, 101, 114]
}

/// The bytes of `advanced_user`.
pub open spec fn advanced_user_tag() -> Seq<u8> {
    seq![97u8, 100, 118, 97, 110, 99, 101, 100, 95, 117, 115, 101, 114]
}

/// The bytes of `vault`.
pub open spec fn vault_tag() -> Seq<u8> {
    seq![118u8, 97, 117, 108, 116]
}

/// The bytes of `secondary`.
pub open spec fn secondary_tag() -> Seq<u8> {
    seq![115u8, 101, 99, 111, 110, 100, 97, 114, 121]
}

/// The bytes of `metadata`.
pub open spec fn metadata_tag() -> Seq<u8> {
    seq![109u8, 101, 116, 97, 100, 97, 116, 97]
}

/// The seed tag `program_state`.
pub fn program_state_seed() -> (r: Vec<u8>)
    ensures
        r@ == program_state_tag(),
{
    // "program_state"
    let r = vec![112u8, 114, 111, 103, 114, 97, 109, 95, 115, 116, 97, 116, 101];
    proof {
        assert(r@ =~= program_state_tag());
    }
    r
}

fn user_seed() -> (r: Vec<u8>)
    ensures
        r@ == user_tag(),
{
    // "user"
    let r = vec![117u8, 115, 101, 114];
    proof {
        assert(r@ =~= user_tag());
    }
    r
}

fn advanced_user_seed() -> (r: Vec<u8>)
    ensures
        r@ == advanced_user_tag(),
{
    // "advanced_user"
    let r = vec![97u8, 100, 118, 97, 110, 99, 101, 100, 95, 117, 115, 101, 114];
    proof {
        assert(r@ =~= advanced_user_tag());
    }
    r
}

fn vault_seed() -> (r: Vec<u8>)
    ensures
        r@ == vault_tag(),
{
    // "vault"
    let r = vec![118u8, 97, 117, 108, 116];
    proof {
        assert(r@ =~= vault_tag());
    }
    r
}

fn secondary_seed() -> (r: Vec<u8>)
    ensures
        r@ == secondary_tag(),
{
    // "secondary"
    let r = vec![115u8, 101, 99, 111, 110, 100, 97, 114, 121];
    proof {
        assert(r@ =~= secondary_tag());
    }
    r
}

fn metadata_seed() -> (r: Vec<u8>)
    ensures
        r@ == metadata_tag(),
{
    // "metadata"
    let r = vec![109u8, 101, 116, 97, 100, 97, 116, 97];
    proof {
        assert(r@ =~= metadata_tag());
    }
    r
}

fn address_bytes(a: &Address) -> (r: Vec<u8>)
    ensures
        r@ == a@,
{
    let mut r: Vec<u8> = Vec::new();
    push_all(&mut r, &a.bytes);
    proof {
        assert(r@ =~= a@);
    }
    r
}

fn seeds2(a: Vec<u8>, b: Vec<u8>) -> (r: Vec<Vec<u8>>)
    ensures
        seeds_view(r@) == seq![a@, b@],
{
    let mut r: Vec<Vec<u8>> = Vec::new();
    r.push(a);
    r.push(b);
    proof {
        assert(seeds_view(r@) =~= seq![a@, b@]);
    }
    r
}

fn seeds3(a: Vec<u8>, b: Vec<u8>, c: Vec<u8>) -> (r: Vec<Vec<u8>>)
    ensures
        seeds_view(r@) == seq![a@, b@, c@],
{
    let mut r: Vec<Vec<u8>> = Vec::new();
    r.push(a);
    r.push(b);
    r.push(c);
    proof {
        assert(seeds_view(r@) =~= seq![a@, b@, c@]);
    }
    r
}

/// Accepts the outcome of a bump search unless it found nothing or the
/// all-zero address.
pub fn accept_found_address(found: Option<(Address, u8)>) -> (r: CommonResult<(Address, u8)>)
    ensures
        pda_view(r) == match found {
            None => Err(CommonError::Custom(CustomError::NoViableBump)),
            Some(p) => if p.0@ == zero_address() {
                Err(CommonError::AccountValidationFailed)
            } else {
                Ok((p.0@, p.1))
            },
        },
{
    match found {
        None => Err(CommonError::Custom(CustomError::NoViableBump)),
        Some(p) => {
            validate_not_default(&p.0)?;
            Ok(p)
        },
    }
}

/// Accepts `derived` when it is the address that the bump search found.
pub fn matches_found_address(derived: &Address, found: Option<(Address, u8)>) -> (r: CommonResult<()>)
    ensures
        r == (if found matches Some(p) && p.0@ == derived@ {
            Ok::<(), CommonError>(())
        } else {
            Err(CommonError::AccountValidationFailed)
        }),
{
    match found {
        Some(p) => {
            if !derived.equals(&p.0) {
                return Err(CommonError::AccountValidationFailed);
            }
            Ok(())
        },
        None => Err(CommonError::AccountValidationFailed),
    }
}

/// Derives an address and bump from the seeds, rejecting seed parts longer
/// than the maximum and an all-zero result.
pub fn create_pda_with_validation(seeds: &Vec<Vec<u8>>, program_id: &Address) -> (r: CommonResult<(Address, u8)>)
    ensures
        pda_view(r) == derive_spec(seeds_view(seeds@), program_id@),
{
    let ghost sv = seeds_view(seeds@);
    let mut i: usize = 0;
    while i < seeds.len()
        invariant
            i <= seeds@.len(),
            sv == seeds_view(seeds@),
            forall|j: int| 0 <= j < i ==> #[trigger] sv[j].len() <= MAX_SEED_LENGTH,
        decreases seeds@.len() - i,
    {
        if seeds[i].len() > MAX_SEED_LENGTH {
            proof {
                assert(sv[i as int].len() > MAX_SEED_LENGTH);
            }
            return Err(CommonError::Custom(CustomError::SeedTooLong));
        }
        i = i + 1;
    }
    accept_found_address(find_program_address(seeds, program_id))
}

/// The address of the single program-state record.
pub fn create_program_state_pda(program_id: &Address) -> (r: CommonResult<(Address, u8)>)
    ensures
        pda_view(r) == derive_spec(seq![program_state_tag()], program_id@),
{
    let mut seeds: Vec<Vec<u8>> = Vec::new();
    seeds.push(program_state_seed());
    proof {
        assert(seeds_view(seeds@) =~= seq![program_state_tag()]);
    }
    create_pda_with_validation(&seeds, program_id)
}

/// The address of a user's account record: seeds `["user", user]`.
pub fn create_user_pda(user_pubkey: &Address, program_id: &Address) -> (r: CommonResult<(Address, u8)>)
    ensures
        pda_view(r) == (if user_pubkey@ == zero_address() {
            Err(CommonError::AccountValidationFailed)
        } else {
            derive_spec(seq![user_tag(), user_pubkey@], program_id@)
        }),
{
    validate_not_default(user_pubkey)?;
    let seeds = seeds2(user_seed(), address_bytes(user_pubkey));
    create_pda_with_validation(&seeds, program_id)
}

/// Address of an advanced user record: seeds `["advanced_user", deterministic seed]`.
pub fn create_advanced_user_pda(user_pubkey: &Address, user_type: &str, nonce: u32, program_id: &Address) -> (r: CommonResult<(Address, u8)>)
    ensures
        pda_view(r) == (if user_pubkey@ == zero_address() {
            Err(CommonError::AccountValidationFailed)
        } else {
            derive_spec(
                seq![advanced_user_tag(), deterministic_seed_spec(user_pubkey@, user_type.spec_bytes(), nonce)],
                program_id@,
            )
        }),
{
    validate_not_default(user_pubkey)?;
    let crypto_seed = generate_deterministic_seed(user_pubkey, user_type, nonce)?;
    let seeds = seeds2(advanced_user_seed(), crypto_seed);
    create_pda_with_validation(&seeds, program_id)
}

/// Address of a vault (never the all-zero one): seeds `["vault", owner, vault_id as 8 little-endian bytes]`.
pub fn derive_vault_address(owner: &Address, vault_id: u64, program_id: &Address) -> (r: CommonResult<(Address, u8)>)
    ensures
        pda_view(r) == search_spec(seq![vault_tag(), owner@, le_bytes(vault_id as nat, 8)], program_id@),
{
    let mut id_bytes: Vec<u8> = Vec::new();
    push_le_bytes(&mut id_bytes, vault_id, 8);
    proof {
        assert(id_bytes@ =~= le_bytes(vault_id as nat, 8));
    }
    let seeds = seeds3(vault_seed(), address_bytes(owner), id_bytes);
    accept_found_address(find_program_address(&seeds, program_id))
}

/// Vault address of a non-default owner.
pub fn create_vault_pda(owner: &Address, vault_id: u64, program_id: &Address) -> (r: CommonResult<(Address, u8)>)
    ensures
        pda_view(r) == (if owner@ == zero_address() {
            Err(CommonError::AccountValidationFailed)
        } else {
            search_spec(seq![vault_tag(), owner@, le_bytes(vault_id as nat, 8)], program_id@)
        }),
{
    validate_not_default(owner)?;
    derive_vault_address(owner, vault_id, program_id)
}

/// Secondary address: seeds `["secondary", primary, path]`; a path over the
/// maximum seed length fails, and so does an all-zero result.
pub fn derive_secondary_address(primary: &Address, derivation_path: &[u8], program_id: &Address) -> (r: CommonResult<(Address, u8)>)
    ensures
        pda_view(r) == (if derivation_path@.len() > MAX_SEED_LENGTH {
            Err(CommonError::Custom(CustomError::DerivationPathTooLong))
        } else {
            search_spec(seq![secondary_tag(), primary@, derivation_path@], program_id@)
        }),
{
    if derivation_path.len() > MAX_SEED_LENGTH {
        return Err(CommonError::Custom(CustomError::DerivationPathTooLong));
    }
    let mut path: Vec<u8> = Vec::new();
    push_all(&mut path, derivation_path);
    let seeds = seeds3(secondary_seed(), address_bytes(primary), path);
    accept_found_address(find_program_address(&seeds, program_id))
}

/// Metadata address: seeds `["metadata", account, first 8 bytes of
/// hash(metadata_type)]`; an all-zero result fails.
pub fn derive_metadata_address(account: &Address, metadata_type: &str, program_id: &Address) -> (r: CommonResult<(Address, u8)>)
    ensures
        pda_view(r) == search_spec(
            seq![metadata_tag(), account@, keccak256(metadata_type.spec_bytes()).subrange(0, 8)],
            program_id@,
        ),
{
    let type_hash = hash_account_data(metadata_type.as_bytes());
    let mut prefix: Vec<u8> = Vec::new();
    push_range(&mut prefix, &type_hash, 0, 8);
    proof {
        assert(prefix@ =~= keccak256(metadata_type.spec_bytes()).subrange(0, 8));
    }
    let seeds = seeds3(metadata_seed(), address_bytes(account), prefix);
    accept_found_address(find_program_address(&seeds, program_id))
}

/// Whether `derived` is the address found for seeds `[base, seed]`.
pub open spec fn derivation_holds(derived: Seq<u8>, base: Seq<u8>, seed: Seq<u8>, program_id: Seq<u8>) -> bool {
    match found_address(seq![base, seed], program_id) {
        Some(p) => p.0 == derived,
        None => false,
    }
}

/// Recomputes the derivation from `[base, seed]` and fails with
/// `AccountValidationFailed` unless it gives `derived`.
pub fn verify_account_derivation(derived: &Address, base: &Address, seed: &[u8], program_id: &Address) -> (r: CommonResult<()>)
    ensures
        r == (if derivation_holds(derived@, base@, seed@, program_id@) {
            Ok::<(), CommonError>(())
        } else {
            Err(CommonError::AccountValidationFailed)
        }),
{
    let mut seed_bytes: Vec<u8> = Vec::new();
    push_all(&mut seed_bytes, seed);
    let seeds = seeds2(address_bytes(base), seed_bytes);
    matches_found_address(derived, find_program_address(&seeds, program_id))
}

} // verus!
