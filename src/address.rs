use vstd::prelude::*;
use solana_program::pubkey::Pubkey;
use crate::error::{CommonError, CommonResult};

verus! {

/// Longest seed part accepted for address derivation.
pub const MAX_SEED_LENGTH: usize = 32;

/// A 32-byte account identifier.
#[derive(Debug, Clone, Copy)]
pub struct Address {
    pub bytes: [u8; 32],
}

/// The all-zero address, which never identifies a valid account.
pub open spec fn zero_address() -> Seq<u8> {
    Seq::new(32, |i: int| 0u8)
}

impl View for Address {
    type V = Seq<u8>;

    open spec fn view(&self) -> Seq<u8> {
        self.bytes@
    }
}

impl Address {
    /// An address with the given bytes.
    pub fn new(bytes: [u8; 32]) -> (r: Address)
        ensures
            r@ == bytes@,
    {
        Address { bytes }
    }

    /// The all-zero (default) address.
    pub fn zero() -> (r: Address)
        ensures
            r@ == zero_address(),
    {
        let r = Address { bytes: [0u8; 32] };
        proof {
            assert(r@ =~= zero_address());
        }
        r
    }

    /// Whether both addresses hold the same bytes.
    pub fn equals(&self, other: &Address) -> (r: bool)
        ensures
            r == (self@ == other@),
    {
        let mut i: usize = 0;
        while i < 32
            invariant
                i <= 32,
                self@.len() == 32,
                other@.len() == 32,
                forall|j: int| 0 <= j < i ==> self@[j] == other@[j],
            decreases 32 - i,
        {
            if self.bytes[i] != other.bytes[i] {
                return false;
            }
            i = i + 1;
        }
        proof {
            assert(self@ =~= other@);
        }
        true
    }

    /// Whether every byte is zero.
    pub fn is_default(&self) -> (r: bool)
        ensures
            r == (self@ == zero_address()),
    {
        let z = Address::zero();
        self.equals(&z)
    }
}

/// The seed parts as byte sequences.
pub open spec fn seeds_view(seeds: Seq<Vec<u8>>) -> Seq<Seq<u8>> {
    seeds.map_values(|s: Vec<u8>| s@)
}

/// The address that `Pubkey::create_program_address` computes for these seeds
/// and program id, or `None` where it refuses them.
pub uninterp spec fn created_address(seeds: Seq<Seq<u8>>, program_id: Seq<u8>) -> Option<Seq<u8>>;

/// The address and bump byte that `Pubkey::try_find_program_address` finds
/// for these seeds and program id, or `None` where it finds none.
pub uninterp spec fn found_address(seeds: Seq<Seq<u8>>, program_id: Seq<u8>) -> Option<(Seq<u8>, u8)>;

/// Relies on `solana_program::pubkey::Pubkey::create_program_address`: a
/// deterministic function of the seeds and program id.
#[verifier::external_body]
fn create_program_address(seeds: &Vec<Vec<u8>>, program_id: &Address) -> (r: Option<Address>)
    ensures
        match r {
            Some(a) => created_address(seeds_view(seeds@), program_id@) == Some(a@),
            None => created_address(seeds_view(seeds@), program_id@) is None,
        },
{
    let refs: Vec<&[u8]> = seeds.iter().map(|s| s.as_slice()).collect();
    let id = Pubkey::new_from_array(program_id.bytes);
    match Pubkey::create_program_address(&refs, &id) {
        Ok(key) => Some(Address { bytes: key.to_bytes() }),
        Err(_) => None,
    }
}

/// Relies on `solana_program::pubkey::Pubkey::try_find_program_address`: a
/// deterministic function of the seeds and program id.
#[verifier::external_body]
pub(crate) fn find_program_address(seeds: &Vec<Vec<u8>>, program_id: &Address) -> (r: Option<(Address, u8)>)
    ensures
        match r {
            Some(p) => found_address(seeds_view(seeds@), program_id@) == Some((p.0@, p.1)),
            None => found_address(seeds_view(seeds@), program_id@) is None,
        },
{
    let refs: Vec<&[u8]> = seeds.iter().map(|s| s.as_slice()).collect();
    let id = Pubkey::new_from_array(program_id.bytes);
    Pubkey::try_find_program_address(&refs, &id).map(|(key, bump)| (Address { bytes: key.to_bytes() }, bump))
}

/// Whether the address is not the all-zero default.
pub fn is_valid_pubkey(pubkey: &Address) -> (r: bool)
    ensures
        r == (pubkey@ != zero_address()),
{
    !pubkey.is_default()
}

/// The program address for exactly these seeds (bump included), without a search.
pub fn create_program_address_safe(seeds: &Vec<Vec<u8>>, program_id: &Address) -> (r: CommonResult<Address>)
    ensures
        match created_address(seeds_view(seeds@), program_id@) {
            Some(a) => r is Ok && r->Ok_0@ == a,
            None => r == Err::<Address, CommonError>(CommonError::InvalidCalculation),
        },
{
    match create_program_address(seeds, program_id) {
        Some(a) => Ok(a),
        None => Err(CommonError::InvalidCalculation),
    }
}

/// Fails with `InsufficientPermissions` unless the owners are equal.
pub fn validate_owner(account_owner: &Address, expected_owner: &Address) -> (r: CommonResult<()>)
    ensures
        r == (if account_owner@ == expected_owner@ {
            Ok::<(), CommonError>(())
        } else {
            Err(CommonError::InsufficientPermissions)
        }),
{
    if !account_owner.equals(expected_owner) {
        return Err(CommonError::InsufficientPermissions);
    }
    Ok(())
}

/// Fails with `AccountValidationFailed` on the all-zero address.
pub fn validate_not_default(pubkey: &Address) -> (r: CommonResult<()>)
    ensures
        r == (if pubkey@ != zero_address() {
            Ok::<(), CommonError>(())
        } else {
            Err(CommonError::AccountValidationFailed)
        }),
{
    if pubkey.is_default() {
        return Err(CommonError::AccountValidationFailed);
    }
    Ok(())
}

} // verus!
