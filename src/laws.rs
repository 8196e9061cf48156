use vstd::prelude::*;
use crate::account::{signer_spec, AccountView};
use crate::address::found_address;
use crate::arith::basis_points_spec;
use crate::derivation::{derivation_holds, derive_spec};
use crate::error::{CommonError, CommonResult};
use crate::hashing::keccak256;
use crate::ledger::{create_user_spec, initialize_spec, LedgerError};
use crate::pipeline::{pipeline_spec, Check};
use crate::security::{token_input, verify_token_spec};

verus! {

/// A basis-point share never exceeds the amount; zero basis points give zero
/// and 10000 basis points give the whole amount.
pub proof fn lemma_basis_points_bounds(amount: u64, bp: u16)
    requires
        bp <= 10000,
    ensures
        basis_points_spec(amount, bp) is Ok,
        basis_points_spec(amount, bp)->Ok_0 <= amount,
        basis_points_spec(amount, 0) == Ok::<u64, CommonError>(0),
        basis_points_spec(amount, 10000) == Ok::<u64, CommonError>(amount),
{
    assert(amount * bp <= amount * 10000) by (nonlinear_arith)
        requires bp <= 10000;
    assert((amount * 10000) / 10000 == amount) by (nonlinear_arith);
    vstd::arithmetic::div_mod::lemma_div_is_ordered(amount * bp, amount * 10000, 10000);
}

/// Derivation is a function of its inputs: two derivations from the same
/// seeds and program id agree, address and bump alike.
pub proof fn lemma_derivation_deterministic(
    seeds: Seq<Seq<u8>>,
    program_id: Seq<u8>,
    first: Result<(Seq<u8>, u8), CommonError>,
    second: Result<(Seq<u8>, u8), CommonError>,
)
    requires
        first == derive_spec(seeds, program_id),
        second == derive_spec(seeds, program_id),
    ensures
        first == second,
{
}

/// When `[base, seed]` derives an address, re-verification accepts exactly
/// that address and rejects every other one.
pub proof fn lemma_verification_accepts_exactly_derived(
    base: Seq<u8>,
    seed: Seq<u8>,
    program_id: Seq<u8>,
    candidate: Seq<u8>,
)
    requires
        derive_spec(seq![base, seed], program_id) is Ok,
    ensures
        derivation_holds(candidate, base, seed, program_id) <==> candidate == derive_spec(
            seq![base, seed],
            program_id,
        )->Ok_0.0,
{
    assert(found_address(seq![base, seed], program_id) is Some);
}

/// An account that did not sign fails at the signer check when that check
/// comes first, whatever the later checks (a valid derivation included)
/// would say.
pub proof fn lemma_signer_check_reported_first(account: AccountView, checks: Seq<Check>)
    requires
        !account.is_signer,
        checks.len() > 0,
        checks[0] is Signer,
    ensures
        pipeline_spec(account, checks) == Err::<(), CommonError>(CommonError::InsufficientPermissions),
{
}

/// CreateUserAccount reports a missing signature before it looks at the
/// derived address, even when the address is the right one.
pub proof fn lemma_create_user_checks_signer_before_derivation(
    program_id: Seq<u8>,
    accounts: Seq<AccountView>,
    initial_balance: u64,
)
    requires
        accounts.len() >= 3,
        !accounts[1].is_signer,
    ensures
        create_user_spec(program_id, accounts, initial_balance) == Err::<crate::account::UserAccount, LedgerError>(
            LedgerError::MissingRequiredSignature,
        ),
{
}

/// Initialize reports a missing signature once the program-state address is
/// the derived one, before it looks at the amount.
pub proof fn lemma_initialize_checks_signer(
    program_id: Seq<u8>,
    accounts: Seq<AccountView>,
    initial_amount: u64,
)
    requires
        accounts.len() >= 2,
        derive_spec(seq![crate::derivation::program_state_tag()], program_id) is Ok,
        accounts[0].key@ == derive_spec(seq![crate::derivation::program_state_tag()], program_id)->Ok_0.0,
        !accounts[1].is_signer,
    ensures
        initialize_spec(program_id, accounts, initial_amount) == Err::<crate::account::ProgramState, LedgerError>(
            LedgerError::MissingRequiredSignature,
        ),
{
    assert(signer_spec(accounts[1]) is Err);
}

/// A freshly generated token verifies for its own account, operation and
/// time exactly when it is not older than the maximum age.
pub proof fn lemma_security_token_round_trip(
    account: Seq<u8>,
    operation: Seq<u8>,
    timestamp: i64,
    max_age_seconds: i64,
    now: i64,
)
    ensures
        verify_token_spec(
            keccak256(token_input(account, operation, timestamp)),
            account,
            operation,
            timestamp,
            max_age_seconds,
            now,
        ) is Ok <==> now - timestamp <= max_age_seconds,
{
}

/// Checking again with the same inputs gives the same result: two runs of
/// re-verification, or of the basis-point computation, on equal inputs agree.
pub proof fn lemma_checks_repeatable(
    derived: Seq<u8>,
    base: Seq<u8>,
    seed: Seq<u8>,
    program_id: Seq<u8>,
    amount: u64,
    bp: u16,
    first_check: bool,
    second_check: bool,
    first_share: CommonResult<u64>,
    second_share: CommonResult<u64>,
)
    requires
        first_check == derivation_holds(derived, base, seed, program_id),
        second_check == derivation_holds(derived, base, seed, program_id),
        first_share == basis_points_spec(amount, bp),
        second_share == basis_points_spec(amount, bp),
    ensures
        first_check == second_check,
        first_share == second_share,
{
}

} // verus!
