use vstd::prelude::*;
use crate::account::{account_info_spec, validate_account_info, AccountView};
use crate::address::{validate_owner, Address};
use crate::derivation::{derivation_holds, verify_account_derivation};
use crate::error::{CommonError, CommonResult, CustomError};
use crate::hashing::keccak256;
use crate::security::{distinct_count, validate_account_ownership_proof, validate_account_security_level};

verus! {

/// One step of account validation.
#[derive(Debug, Clone)]
pub enum Check {
    /// Non-default address and non-empty data.
    Exists,
    /// The account signed the invocation.
    Signer,
    /// The account is writable in this invocation.
    Writable,
    /// The account is owned by the given program.
    OwnerIs(Address),
    /// The account's address is derived from `[base, seed]` under `program_id`.
    DerivationMatches { base: Address, seed: Vec<u8>, program_id: Address },
    /// `proof == hash(owner ‖ account address)`.
    OwnershipProof { owner: Address, proof: [u8; 32] },
    /// At least 32 bytes of data with this many distinct byte values.
    Entropy(u8),
}

/// Result of one check on an account.
pub open spec fn check_spec(a: AccountView, c: Check) -> CommonResult<()> {
    match c {
        Check::Exists => account_info_spec(a),
        Check::Signer => if a.is_signer { Ok(()) } else { Err(CommonError::InsufficientPermissions) },
        Check::Writable => if a.is_writable { Ok(()) } else { Err(CommonError::InsufficientPermissions) },
        Check::OwnerIs(o) => if a.owner@ == o@ { Ok(()) } else { Err(CommonError::InsufficientPermissions) },
        Check::DerivationMatches { base, seed, program_id } => if derivation_holds(a.key@, base@, seed@, program_id@) {
            Ok(())
        } else {
            Err(CommonError::AccountValidationFailed)
        },
        Check::OwnershipProof { owner, proof } => if proof@ == keccak256(owner@ + a.key@) {
            Ok(())
        } else {
            Err(CommonError::InsufficientPermissions)
        },
        Check::Entropy(t) => if a.data@.len() < 32 {
            Err(CommonError::AccountValidationFailed)
        } else if distinct_count(a.data@) < t {
            Err(CommonError::Custom(CustomError::EntropyTooLow { distinct: distinct_count(a.data@) as u16, required: t }))
        } else {
            Ok(())
        },
    }
}

/// Result of the checks applied in order: the first failure, or success.
pub open spec fn pipeline_spec(a: AccountView, checks: Seq<Check>) -> CommonResult<()>
    decreases checks.len(),
{
    if checks.len() == 0 {
        Ok(())
    } else {
        match check_spec(a, checks[0]) {
            Err(e) => Err(e),
            Ok(_) => pipeline_spec(a, checks.drop_first()),
        }
    }
}

/// Applies one check to an account.
pub fn run_check(account: &AccountView, check: &Check) -> (r: CommonResult<()>)
    ensures
        r == check_spec(*account, *check),
{
    match check {
        Check::Exists => validate_account_info(account),
        Check::Signer => if account.is_signer { Ok(()) } else { Err(CommonError::InsufficientPermissions) },
        Check::Writable => if account.is_writable { Ok(()) } else { Err(CommonError::InsufficientPermissions) },
        Check::OwnerIs(o) => validate_owner(&account.owner, o),
        Check::DerivationMatches { base, seed, program_id } => verify_account_derivation(
            &account.key,
            base,
            seed.as_slice(),
            program_id,
        ),
        Check::OwnershipProof { owner, proof } => validate_account_ownership_proof(&account.key, owner, proof),
        Check::Entropy(t) => validate_account_security_level(account.data.as_slice(), *t),
    }
}

/// Applies the checks in order and stops at the first failure.
pub fn run_checks(account: &AccountView, checks: &Vec<Check>) -> (r: CommonResult<()>)
    ensures
        r == pipeline_spec(*account, checks@),
{
    let mut i: usize = 0;
    proof {
        assert(checks@.subrange(0, checks@.len() as int) =~= checks@);
    }
    while i < checks.len()
        invariant
            i <= checks@.len(),
            pipeline_spec(*account, checks@) == pipeline_spec(*account, checks@.subrange(i as int, checks@.len() as int)),
        decreases checks@.len() - i,
    {
        let ghost rest = checks@.subrange(i as int, checks@.len() as int);
        proof {
            assert(rest[0] == checks@[i as int]);
            assert(rest.drop_first() =~= checks@.subrange(i + 1, checks@.len() as int));
        }
        let r = run_check(account, &checks[i]);
        if r.is_err() {
            return r;
        }
        i = i + 1;
    }
    proof {
        assert(checks@.subrange(i as int, checks@.len() as int).len() == 0);
    }
    Ok(())
}

} // verus!
