use vstd::prelude::*;
use vstd::string::StringSliceAdditionalSpecFns;
use crate::address::Address;
use crate::bytes::{le_bytes, push_all, push_le_bytes};
use crate::error::{CommonError, CommonResult, CustomError};
use crate::hashing::{bytes32_equal, create_account_identifier, hash_account_data, keccak256};

verus! {

/// Fails with `InsufficientPermissions` unless `proof == hash(owner ‖ account)`.
pub fn validate_account_ownership_proof(account: &Address, owner: &Address, proof: &[u8; 32]) -> (r: CommonResult<()>)
    ensures
        r == (if proof@ == keccak256(owner@ + account@) {
            Ok::<(), CommonError>(())
        } else {
            Err(CommonError::InsufficientPermissions)
        }),
{
    let expected_proof = create_account_identifier(owner, &account.bytes);
    if !bytes32_equal(proof, &expected_proof) {
        return Err(CommonError::InsufficientPermissions);
    }
    Ok(())
}

/// Checks that `signature_data` is the 32-byte hash of `message ‖ account`.
pub fn validate_deterministic_signature(message: &[u8], account: &Address, signature_data: &[u8]) -> (r: CommonResult<()>)
    ensures
        r == (if signature_data@.len() != 32 {
            Err(CommonError::Custom(CustomError::InvalidSignatureLength))
        } else if signature_data@ != keccak256(message@ + account@) {
            Err(CommonError::InsufficientPermissions)
        } else {
            Ok::<(), CommonError>(())
        }),
{
    let mut verification_data: Vec<u8> = Vec::new();
    push_all(&mut verification_data, message);
    push_all(&mut verification_data, &account.bytes);
    proof {
        assert(verification_data@ =~= message@ + account@);
    }
    let expected_hash = hash_account_data(verification_data.as_slice());
    if signature_data.len() != 32 {
        return Err(CommonError::Custom(CustomError::InvalidSignatureLength));
    }
    let mut i: usize = 0;
    while i < 32
        invariant
            i <= 32,
            signature_data@.len() == 32,
            expected_hash@.len() == 32,
            expected_hash@ == keccak256(message@ + account@),
            forall|j: int| 0 <= j < i ==> signature_data@[j] == expected_hash@[j],
        decreases 32 - i,
    {
        if signature_data[i] != expected_hash[i] {
            proof {
                assert(signature_data@[i as int] != expected_hash@[i as int]);
            }
            return Err(CommonError::InsufficientPermissions);
        }
        i = i + 1;
    }
    proof {
        assert(signature_data@ =~= expected_hash@);
    }
    Ok(())
}

/// Whether byte value `b` occurs in `s`.
pub open spec fn occurs(s: Seq<u8>, b: u8) -> bool {
    exists|j: int| 0 <= j < s.len() && s[j] == b
}

/// How many of the byte values `0..n` occur in `s`.
pub open spec fn count_present(s: Seq<u8>, n: nat) -> nat
    decreases n,
{
    if n == 0 {
        0
    } else {
        count_present(s, (n - 1) as nat) + if occurs(s, (n - 1) as u8) { 1nat } else { 0nat }
    }
}

/// Number of distinct byte values in `s`.
pub open spec fn distinct_count(s: Seq<u8>) -> nat {
    count_present(s, 256)
}

proof fn lemma_count_present_bound(s: Seq<u8>, n: nat)
    ensures
        count_present(s, n) <= n,
    decreases n,
{
    if n > 0 {
        lemma_count_present_bound(s, (n - 1) as nat);
    }
}

/// The number of distinct byte values in `data`.
pub fn count_distinct_bytes(data: &[u8]) -> (r: u16)
    ensures
        r == distinct_count(data@),
{
    let mut seen: Vec<bool> = Vec::new();
    let mut k: usize = 0;
    while k < 256
        invariant
            k <= 256,
            seen@.len() == k,
            forall|v: int| 0 <= v < k ==> !seen@[v],
        decreases 256 - k,
    {
        seen.push(false);
        k = k + 1;
    }
    let mut i: usize = 0;
    while i < data.len()
        invariant
            i <= data@.len(),
            seen@.len() == 256,
            forall|v: int| 0 <= v < 256 ==> #[trigger] seen@[v] == occurs(data@.subrange(0, i as int), v as u8),
        decreases data@.len() - i,
    {
        let b = data[i];
        seen[b as usize] = true;
        proof {
            let pre = data@.subrange(0, i as int);
            let post = data@.subrange(0, i + 1);
            assert forall|v: int| 0 <= v < 256 implies #[trigger] seen@[v] == occurs(post, v as u8) by {
                if v == b as int {
                    assert(post[i as int] == b);
                } else {
                    if occurs(post, v as u8) {
                        let j = choose|j: int| 0 <= j < post.len() && post[j] == v as u8;
                        assert(pre[j] == v as u8);
                    }
                    if occurs(pre, v as u8) {
                        let j = choose|j: int| 0 <= j < pre.len() && pre[j] == v as u8;
                        assert(post[j] == v as u8);
                    }
                }
            }
        }
        i = i + 1;
    }
    proof {
        assert(data@.subrange(0, data@.len() as int) =~= data@);
    }
    let mut count: u16 = 0;
    let mut v: usize = 0;
    while v < 256
        invariant
            v <= 256,
            seen@.len() == 256,
            forall|w: int| 0 <= w < 256 ==> #[trigger] seen@[w] == occurs(data@, w as u8),
            count == count_present(data@, v as nat),
        decreases 256 - v,
    {
        proof {
            lemma_count_present_bound(data@, v as nat);
        }
        if seen[v] {
            count = count + 1;
        }
        v = v + 1;
    }
    count
}

/// Entropy spot check: at least 32 bytes, with at least `required_entropy`
/// distinct byte values.
pub fn validate_account_security_level(account_data: &[u8], required_entropy: u8) -> (r: CommonResult<()>)
    ensures
        r == (if account_data@.len() < 32 {
            Err(CommonError::AccountValidationFailed)
        } else if distinct_count(account_data@) < required_entropy {
            Err(CommonError::Custom(
                CustomError::EntropyTooLow {
                    distinct: distinct_count(account_data@) as u16,
                    required: required_entropy,
                },
            ))
        } else {
            Ok::<(), CommonError>(())
        }),
{
    if account_data.len() < 32 {
        return Err(CommonError::AccountValidationFailed);
    }
    let unique_bytes = count_distinct_bytes(account_data);
    if unique_bytes < required_entropy as u16 {
        return Err(CommonError::Custom(
            CustomError::EntropyTooLow { distinct: unique_bytes, required: required_entropy },
        ));
    }
    Ok(())
}

/// Bytes hashed into a security token: `account ‖ operation ‖ timestamp`
/// (timestamp as 8 little-endian bytes, two's complement).
pub open spec fn token_input(account: Seq<u8>, operation: Seq<u8>, timestamp: i64) -> Seq<u8> {
    account + operation + le_bytes((timestamp as u64) as nat, 8)
}

/// A short-lived credential binding an account, an operation and a time.
pub fn generate_security_token(account: &Address, operation_type: &str, timestamp: i64) -> (r: [u8; 32])
    ensures
        r@ == keccak256(token_input(account@, operation_type.spec_bytes(), timestamp)),
{
    let mut token_data: Vec<u8> = Vec::new();
    push_all(&mut token_data, &account.bytes);
    push_all(&mut token_data, operation_type.as_bytes());
    push_le_bytes(&mut token_data, timestamp as u64, 8);
    proof {
        assert(token_data@ =~= token_input(account@, operation_type.spec_bytes(), timestamp));
    }
    hash_account_data(token_data.as_slice())
}

/// Whether a token made at `timestamp` is too old at time `now`.
pub open spec fn token_expired(now: i64, timestamp: i64, max_age_seconds: i64) -> bool {
    now - timestamp > max_age_seconds
}

/// Result of verifying a token against the clock reading `now`.
pub open spec fn verify_token_spec(
    token: Seq<u8>,
    account: Seq<u8>,
    operation: Seq<u8>,
    timestamp: i64,
    max_age_seconds: i64,
    now: i64,
) -> CommonResult<()> {
    if token_expired(now, timestamp, max_age_seconds) {
        Err(CommonError::Custom(CustomError::TokenExpired))
    } else if token != keccak256(token_input(account, operation, timestamp)) {
        Err(CommonError::InsufficientPermissions)
    } else {
        Ok(())
    }
}

/// Verifies a security token against the clock reading `now`: an expired
/// token fails first, then a token that does not match.
pub fn verify_security_token_at(
    token: &[u8; 32],
    account: &Address,
    operation_type: &str,
    timestamp: i64,
    max_age_seconds: i64,
    now: i64,
) -> (r: CommonResult<()>)
    ensures
        r == verify_token_spec(token@, account@, operation_type.spec_bytes(), timestamp, max_age_seconds, now),
{
    if now as i128 - timestamp as i128 > max_age_seconds as i128 {
        return Err(CommonError::Custom(CustomError::TokenExpired));
    }
    let expected_token = generate_security_token(account, operation_type, timestamp);
    if !bytes32_equal(token, &expected_token) {
        return Err(CommonError::InsufficientPermissions);
    }
    Ok(())
}

/// Relies on `std::time::SystemTime::now` and `duration_since(UNIX_EPOCH)`:
/// whole seconds since the epoch, or `None` when the clock reads before it.
#[verifier::external_body]
fn unix_time_now() -> (r: Option<i64>) {
    match std::time::SystemTime::now().duration_since(std::time::UNIX_EPOCH) {
        Ok(d) => Some(d.as_secs() as i64),
        Err(_) => None,
    }
}

/// Verifies a security token against a clock reading; a missing reading is
/// an error, never a pass.
pub fn verify_security_token_with_clock(
    token: &[u8; 32],
    account: &Address,
    operation_type: &str,
    timestamp: i64,
    max_age_seconds: i64,
    clock: Option<i64>,
) -> (r: CommonResult<()>)
    ensures
        r == match clock {
            None => Err(CommonError::Custom(CustomError::ClockUnavailable)),
            Some(now) => verify_token_spec(token@, account@, operation_type.spec_bytes(), timestamp, max_age_seconds, now),
        },
{
    match clock {
        Some(now) => verify_security_token_at(token, account, operation_type, timestamp, max_age_seconds, now),
        None => Err(CommonError::Custom(CustomError::ClockUnavailable)),
    }
}

/// Verifies a security token against the wall clock; a failed clock read is
/// an error, never a pass.
pub fn verify_security_token(
    token: &[u8; 32],
    account: &Address,
    operation_type: &str,
    timestamp: i64,
    max_age_seconds: i64,
) -> (r: CommonResult<()>)
    ensures
        r == Err::<(), CommonError>(CommonError::Custom(CustomError::ClockUnavailable))
            || exists|now: i64|
            r == verify_token_spec(token@, account@, operation_type.spec_bytes(), timestamp, max_age_seconds, now),
{
    verify_security_token_with_clock(token, account, operation_type, timestamp, max_age_seconds, unix_time_now())
}

/// A security token for `operation` on `account` stamped with a clock
/// reading; a missing reading is an error.
pub fn create_security_token_with_clock(account: &Address, operation: &str, clock: Option<i64>) -> (r: CommonResult<[u8; 32]>)
    ensures
        clock is None ==> r == Err::<[u8; 32], CommonError>(CommonError::Custom(CustomError::ClockUnavailable)),
        clock matches Some(now) ==> r is Ok && r->Ok_0@ == keccak256(token_input(account@, operation.spec_bytes(), now)),
{
    match clock {
        Some(now) => Ok(generate_security_token(account, operation, now)),
        None => Err(CommonError::Custom(CustomError::ClockUnavailable)),
    }
}

/// A security token for `operation` on `account`, stamped with the current time.
pub fn create_account_security_token(account: &Address, operation: &str) -> (r: CommonResult<[u8; 32]>)
    ensures
        r is Err ==> r == Err::<[u8; 32], CommonError>(CommonError::Custom(CustomError::ClockUnavailable)),
        r is Ok ==> exists|t: i64| r->Ok_0@ == keccak256(token_input(account@, operation.spec_bytes(), t)),
{
    create_security_token_with_clock(account, operation, unix_time_now())
}

} // verus!
