use vstd::prelude::*;
use crate::address::{validate_not_default, validate_owner, zero_address, Address};
use crate::bytes::le_bytes;
use crate::derivation::{derivation_holds, verify_account_derivation};
use crate::error::{CommonError, CommonResult};
use crate::hashing::keccak256;
use crate::security::{distinct_count, validate_account_ownership_proof, validate_account_security_level};
use crate::error::CustomError;

verus! {

/// Distinct byte values required of account data by the proof-based check.
pub const REQUIRED_ENTROPY: u8 = 16;

/// An account handle as the invocation context hands it over: its address,
/// its owner program, its capability flags and its data.
#[derive(Debug, Clone)]
pub struct AccountView {
    pub key: Address,
    pub owner: Address,
    pub is_signer: bool,
    pub is_writable: bool,
    pub data: Vec<u8>,
}

/// The program-state record.
#[derive(Debug, Clone, Copy)]
pub struct ProgramState {
    pub authority: Address,
    pub total_supply: u64,
    pub is_initialized: bool,
}

/// A user's balance record.
#[derive(Debug, Clone, Copy)]
pub struct UserAccount {
    pub owner: Address,
    pub balance: u64,
    pub program_state: Address,
}

/// Either kind of stored record.
#[derive(Debug, Clone, Copy)]
pub enum AccountRecord {
    ProgramState(ProgramState),
    UserAccount(UserAccount),
}

/// Stored form of a program state: authority, supply (8 bytes little-endian),
/// then one byte for the flag.
pub open spec fn program_state_bytes(s: ProgramState) -> Seq<u8> {
    s.authority@ + le_bytes(s.total_supply as nat, 8) + seq![if s.is_initialized { 1u8 } else { 0u8 }]
}

/// Stored form of a user account: owner, balance (8 bytes little-endian),
/// then the program-state address.
pub open spec fn user_account_bytes(u: UserAccount) -> Seq<u8> {
    u.owner@ + le_bytes(u.balance as nat, 8) + u.program_state@
}

/// Stored form of either record.
pub open spec fn record_bytes(r: AccountRecord) -> Seq<u8> {
    match r {
        AccountRecord::ProgramState(s) => program_state_bytes(s),
        AccountRecord::UserAccount(u) => user_account_bytes(u),
    }
}

/// Relies on `borsh::to_vec` on the tuple of fields: a `[u8; 32]` is written
/// as its bytes, a `u64` as 8 little-endian bytes, a `bool` as one byte 0 or
/// 1, a tuple as its elements in order, and writing to a `Vec` does not fail.
#[verifier::external_body]
fn encode_program_state(authority: &[u8; 32], total_supply: u64, is_initialized: bool) -> (r: Option<Vec<u8>>)
    ensures
        r is Some,
        r->0@ == authority@ + le_bytes(total_supply as nat, 8) + seq![if is_initialized { 1u8 } else { 0u8 }],
{
    borsh::to_vec(&(*authority, total_supply, is_initialized)).ok()
}

/// Relies on `borsh::to_vec` on the tuple of fields, as `encode_program_state`.
#[verifier::external_body]
fn encode_user_account(owner: &[u8; 32], balance: u64, program_state: &[u8; 32]) -> (r: Option<Vec<u8>>)
    ensures
        r is Some,
        r->0@ == owner@ + le_bytes(balance as nat, 8) + program_state@,
{
    borsh::to_vec(&(*owner, balance, *program_state)).ok()
}

/// Relies on `borsh::from_slice` for `([u8; 32], u64, [u8; 32])`: it reads 32
/// bytes, 8 little-endian bytes and 32 bytes, and fails unless that uses up
/// the input exactly.
#[verifier::external_body]
fn decode_user_account(data: &[u8]) -> (r: Option<([u8; 32], u64, [u8; 32])>)
    ensures
        r is Some <==> data@.len() == 72,
        r matches Some(t) ==> data@ == t.0@ + le_bytes(t.1 as nat, 8) + t.2@,
{
    borsh::from_slice::<([u8; 32], u64, [u8; 32])>(data).ok()
}

/// Serialised bytes of a program state.
pub fn serialize_program_state(s: &ProgramState) -> (r: Option<Vec<u8>>)
    ensures
        r is Some,
        r->0@ == program_state_bytes(*s),
{
    encode_program_state(&s.authority.bytes, s.total_supply, s.is_initialized)
}

/// Serialised bytes of a user account.
pub fn serialize_user_account(u: &UserAccount) -> (r: Option<Vec<u8>>)
    ensures
        r is Some,
        r->0@ == user_account_bytes(*u),
{
    encode_user_account(&u.owner.bytes, u.balance, &u.program_state.bytes)
}

/// The user account stored in `data`, when `data` holds exactly one.
pub open spec fn decodes_to(data: Seq<u8>, u: UserAccount) -> bool {
    data == user_account_bytes(u)
}

/// Result of the existence check.
pub open spec fn account_info_spec(a: AccountView) -> CommonResult<()> {
    if a.key@ == zero_address() || a.data@.len() == 0 {
        Err(CommonError::AccountValidationFailed)
    } else {
        Ok(())
    }
}

/// The account exists: a non-default address and non-empty data.
pub fn validate_account_info(account_info: &AccountView) -> (r: CommonResult<()>)
    ensures
        r == account_info_spec(*account_info),
{
    validate_not_default(&account_info.key)?;
    if account_info.data.len() == 0 {
        return Err(CommonError::AccountValidationFailed);
    }
    Ok(())
}

/// Result of the signer check, which comes before the existence check.
pub open spec fn signer_spec(a: AccountView) -> CommonResult<()> {
    if !a.is_signer {
        Err(CommonError::InsufficientPermissions)
    } else {
        account_info_spec(a)
    }
}

/// The account signed the invocation, and exists.
pub fn validate_signer(account_info: &AccountView) -> (r: CommonResult<()>)
    ensures
        r == signer_spec(*account_info),
{
    if !account_info.is_signer {
        return Err(CommonError::InsufficientPermissions);
    }
    validate_account_info(account_info)
}

/// The account is writable in this invocation, and exists.
pub fn validate_writable(account_info: &AccountView) -> (r: CommonResult<()>)
    ensures
        r == (if !account_info.is_writable {
            Err(CommonError::InsufficientPermissions)
        } else {
            account_info_spec(*account_info)
        }),
{
    if !account_info.is_writable {
        return Err(CommonError::InsufficientPermissions);
    }
    validate_account_info(account_info)
}

/// The account is owned by `expected_owner`, and exists.
pub fn validate_account_owner(account_info: &AccountView, expected_owner: &Address) -> (r: CommonResult<()>)
    ensures
        r == (if account_info.owner@ != expected_owner@ {
            Err(CommonError::InsufficientPermissions)
        } else {
            account_info_spec(*account_info)
        }),
{
    validate_owner(&account_info.owner, expected_owner)?;
    validate_account_info(account_info)
}

/// Result of the ownership-proof check followed by the entropy check.
pub open spec fn crypto_proof_spec(a: AccountView, owner: Seq<u8>, proof: Seq<u8>) -> CommonResult<()> {
    if proof != keccak256(owner + a.key@) {
        Err(CommonError::InsufficientPermissions)
    } else if a.data@.len() < 32 {
        Err(CommonError::AccountValidationFailed)
    } else if distinct_count(a.data@) < REQUIRED_ENTROPY {
        Err(CommonError::Custom(
            CustomError::EntropyTooLow { distinct: distinct_count(a.data@) as u16, required: REQUIRED_ENTROPY },
        ))
    } else {
        Ok(())
    }
}

/// The proof equals `hash(owner ‖ account)` and the data has at least 16
/// distinct byte values.
pub fn validate_account_with_crypto_proof(account_info: &AccountView, owner: &Address, proof: &[u8; 32]) -> (r: CommonResult<()>)
    ensures
        r == crypto_proof_spec(*account_info, owner@, proof@),
{
    validate_account_ownership_proof(&account_info.key, owner, proof)?;
    validate_account_security_level(account_info.data.as_slice(), REQUIRED_ENTROPY)?;
    Ok(())
}

/// The account's address is the one derived from `[base, seed]`.
pub fn validate_pda_derivation(derived_account: &AccountView, base_account: &Address, seed: &[u8], program_id: &Address) -> (r: CommonResult<()>)
    ensures
        r == (if derivation_holds(derived_account.key@, base_account@, seed@, program_id@) {
            Ok::<(), CommonError>(())
        } else {
            Err(CommonError::AccountValidationFailed)
        }),
{
    verify_account_derivation(&derived_account.key, base_account, seed, program_id)
}

/// Reads the user account stored in an existing account's data.
pub fn deserialize_account_data(account_info: &AccountView) -> (r: CommonResult<UserAccount>)
    ensures
        account_info_spec(*account_info) is Err ==> r == Err::<UserAccount, CommonError>(
            CommonError::AccountValidationFailed,
        ),
        account_info_spec(*account_info) is Ok && account_info.data@.len() != 72 ==> r == Err::<
            UserAccount,
            CommonError,
        >(CommonError::AccountValidationFailed),
        account_info_spec(*account_info) is Ok && account_info.data@.len() == 72 ==> r is Ok
            && decodes_to(account_info.data@, r->Ok_0),
{
    validate_account_info(account_info)?;
    match decode_user_account(account_info.data.as_slice()) {
        Some(t) => Ok(UserAccount { owner: Address { bytes: t.0 }, balance: t.1, program_state: Address { bytes: t.2 } }),
        None => Err(CommonError::AccountValidationFailed),
    }
}

/// Serialised size of a record.
pub fn calculate_account_size(data: &AccountRecord) -> (r: CommonResult<usize>)
    ensures
        r == Ok::<usize, CommonError>(record_bytes(*data).len() as usize),
{
    let bytes = match data {
        AccountRecord::ProgramState(s) => serialize_program_state(s),
        AccountRecord::UserAccount(u) => serialize_user_account(u),
    };
    match bytes {
        Some(b) => Ok(b.len()),
        None => Err(CommonError::InvalidCalculation),
    }
}

/// The account's data holds at least `required_size` bytes.
pub fn validate_account_space(account_info: &AccountView, required_size: usize) -> (r: CommonResult<()>)
    ensures
        r == (if account_info.data@.len() < required_size {
            Err(CommonError::AccountValidationFailed)
        } else {
            Ok::<(), CommonError>(())
        }),
{
    if account_info.data.len() < required_size {
        return Err(CommonError::AccountValidationFailed);
    }
    Ok(())
}

} // verus!
