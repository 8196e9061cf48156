use vstd::prelude::*;
use crate::error::{CommonError, CommonResult, CustomError};

verus! {

/// Largest basis-point value (100.00%).
pub const MAX_BASIS_POINTS: u16 = 10000;

/// Default decimal precision of the token.
pub const DEFAULT_DECIMALS: u8 = 6;

/// Largest value whose floor square root is computed: `4294967295 * 4294967295`.
pub const SQRT_MAX_U64: u64 = 4294967295;

/// Ten to the power `e`.
pub open spec fn pow10_spec(e: nat) -> nat
    decreases e,
{
    if e == 0 { 1 } else { 10 * pow10_spec((e - 1) as nat) }
}

/// Ten to the power `exponent`, for exponents up to 19.
pub fn pow10(exponent: u32) -> (r: CommonResult<u64>)
    ensures
        exponent > 19 ==> r == Err::<u64, CommonError>(CommonError::InvalidCalculation),
        exponent <= 19 ==> r == Ok::<u64, CommonError>(pow10_spec(exponent as nat) as u64),
        exponent <= 19 ==> pow10_spec(exponent as nat) <= u64::MAX,
{
    if exponent > 19 {
        return Err(CommonError::InvalidCalculation);
    }
    proof {
        reveal_with_fuel(pow10_spec, 20);
    }
    let result: u64 = match exponent {
        0 => 1,
        1 => 10,
        2 => 100,
        3 => 1_000,
        4 => 10_000,
        5 => 100_000,
        6 => 1_000_000,
        7 => 10_000_000,
        8 => 100_000_000,
        9 => 1_000_000_000,
        10 => 10_000_000_000,
        11 => 100_000_000_000,
        12 => 1_000_000_000_000,
        13 => 10_000_000_000_000,
        14 => 100_000_000_000_000,
        15 => 1_000_000_000_000_000,
        16 => 10_000_000_000_000_000,
        17 => 100_000_000_000_000_000,
        18 => 1_000_000_000_000_000_000,
        _ => 10_000_000_000_000_000_000,
    };
    Ok(result)
}

/// True when `a * b` fits in 64 bits.
pub fn is_safe_for_multiplication(a: u64, b: u64) -> (r: bool)
    ensures
        r == (a * b <= u64::MAX),
{
    if a == 0 || b == 0 {
        return true;
    }
    let q = u64::MAX / b;
    proof {
        lemma_fits_iff_le_quotient(a as int, b as int);
    }
    a <= q
}

proof fn lemma_fits_iff_le_quotient(a: int, b: int)
    requires
        0 <= a,
        0 < b,
    ensures
        (a * b <= u64::MAX) == (a <= u64::MAX as int / b),
{
    let m = u64::MAX as int;
    let q = m / b;
    assert(q * b <= m && m < (q + 1) * b) by (nonlinear_arith)
        requires q == m / b, b > 0, m >= 0;
    if a <= q {
        assert(a * b <= q * b) by (nonlinear_arith)
            requires a <= q, b > 0;
    } else {
        assert(a * b >= (q + 1) * b) by (nonlinear_arith)
            requires a >= q + 1, b > 0;
    }
}

/// Accepts basis points up to 10000.
pub fn validate_basis_points(bp: u16) -> (r: CommonResult<()>)
    ensures
        r == (if bp <= MAX_BASIS_POINTS {
            Ok::<(), CommonError>(())
        } else {
            Err(CommonError::Custom(CustomError::BasisPointsTooLarge { basis_points: bp }))
        }),
{
    if bp > MAX_BASIS_POINTS {
        return Err(CommonError::Custom(CustomError::BasisPointsTooLarge { basis_points: bp }));
    }
    Ok(())
}

/// The multiplier `10^decimals`, for precisions up to 19.
pub fn get_precision_multiplier(decimals: u8) -> (r: CommonResult<u64>)
    ensures
        decimals > 19 ==> r == Err::<u64, CommonError>(CommonError::InvalidCalculation),
        decimals <= 19 ==> r == Ok::<u64, CommonError>(pow10_spec(decimals as nat) as u64),
        decimals <= 19 ==> pow10_spec(decimals as nat) <= u64::MAX,
{
    if decimals > 19 {
        return Err(CommonError::InvalidCalculation);
    }
    pow10(decimals as u32)
}

/// Fails unless `a * b` fits in 64 bits.
pub fn validate_multiplication_safety(a: u64, b: u64) -> (r: CommonResult<()>)
    ensures
        r == (if a * b <= u64::MAX {
            Ok::<(), CommonError>(())
        } else {
            Err(CommonError::Custom(CustomError::MultiplicationOverflow))
        }),
{
    if !is_safe_for_multiplication(a, b) {
        return Err(CommonError::Custom(CustomError::MultiplicationOverflow));
    }
    Ok(())
}

/// Accepts decimal precisions up to 19.
pub fn validate_precision(decimals: u8) -> (r: CommonResult<()>)
    ensures
        r == (if decimals <= 19 {
            Ok::<(), CommonError>(())
        } else {
            Err(CommonError::Custom(CustomError::PrecisionTooLarge { decimals }))
        }),
{
    if decimals > 19 {
        return Err(CommonError::Custom(CustomError::PrecisionTooLarge { decimals }));
    }
    Ok(())
}

/// `a + b`, failing on overflow.
pub fn safe_add(a: u64, b: u64) -> (r: CommonResult<u64>)
    ensures
        r == (if a + b <= u64::MAX {
            Ok::<u64, CommonError>((a + b) as u64)
        } else {
            Err(CommonError::InvalidCalculation)
        }),
{
    match a.checked_add(b) {
        Some(v) => Ok(v),
        None => Err(CommonError::InvalidCalculation),
    }
}

/// `a - b`, failing when `b > a`.
pub fn safe_sub(a: u64, b: u64) -> (r: CommonResult<u64>)
    ensures
        r == (if b <= a {
            Ok::<u64, CommonError>((a - b) as u64)
        } else {
            Err(CommonError::InvalidCalculation)
        }),
{
    match a.checked_sub(b) {
        Some(v) => Ok(v),
        None => Err(CommonError::InvalidCalculation),
    }
}

/// `a * b`, failing on overflow.
pub fn safe_mul(a: u64, b: u64) -> (r: CommonResult<u64>)
    ensures
        r == (if a * b <= u64::MAX {
            Ok::<u64, CommonError>((a * b) as u64)
        } else {
            Err(CommonError::InvalidCalculation)
        }),
{
    match a.checked_mul(b) {
        Some(v) => Ok(v),
        None => Err(CommonError::InvalidCalculation),
    }
}

/// `a / b` rounded down, failing when `b == 0`.
pub fn safe_div(a: u64, b: u64) -> (r: CommonResult<u64>)
    ensures
        r == (if b != 0 {
            Ok::<u64, CommonError>((a / b) as u64)
        } else {
            Err(CommonError::InvalidCalculation)
        }),
{
    if b == 0 {
        return Err(CommonError::InvalidCalculation);
    }
    Ok(a / b)
}

/// The result of scaling `amount` by `10^decimals`.
pub open spec fn token_amount_spec(amount: u64, decimals: u8) -> CommonResult<u64> {
    if decimals > 19 {
        Err(CommonError::InvalidCalculation)
    } else if amount * pow10_spec(decimals as nat) > u64::MAX {
        Err(CommonError::InvalidCalculation)
    } else {
        Ok((amount * pow10_spec(decimals as nat)) as u64)
    }
}

/// Scales `base_amount` by `10^decimals`, exactly or not at all; a precision
/// above 19 and an overflow both fail with `InvalidCalculation`.
pub fn calculate_token_amount(base_amount: u64, decimals: u8) -> (r: CommonResult<u64>)
    ensures
        r == token_amount_spec(base_amount, decimals),
{
    if validate_precision(decimals).is_err() {
        return Err(CommonError::InvalidCalculation);
    }
    let multiplier = get_precision_multiplier(decimals)?;
    if validate_multiplication_safety(base_amount, multiplier).is_err() {
        return Err(CommonError::InvalidCalculation);
    }
    match base_amount.checked_mul(multiplier) {
        Some(v) => Ok(v),
        None => Err(CommonError::InvalidCalculation),
    }
}

/// Scales `base_amount` by the default precision of six decimals.
pub fn calculate_default_token_amount(base_amount: u64) -> (r: CommonResult<u64>)
    ensures
        r == token_amount_spec(base_amount, DEFAULT_DECIMALS),
        pow10_spec(DEFAULT_DECIMALS as nat) == 1_000_000,
{
    proof {
        reveal_with_fuel(pow10_spec, 7);
    }
    calculate_token_amount(base_amount, DEFAULT_DECIMALS)
}

/// Divides a scaled amount by `10^decimals`, rounding down; precisions above 19 fail.
pub fn convert_to_base_units(token_amount: u64, decimals: u8) -> (r: CommonResult<u64>)
    ensures
        decimals > 19 ==> r == Err::<u64, CommonError>(CommonError::InvalidCalculation),
        decimals <= 19 ==> r == Ok::<u64, CommonError>(
            (token_amount as nat / pow10_spec(decimals as nat)) as u64,
        ),
{
    let divisor = pow10(decimals as u32)?;
    proof {
        lemma_pow10_positive(decimals as nat);
    }
    Ok(token_amount / divisor)
}

proof fn lemma_pow10_positive(e: nat)
    ensures
        pow10_spec(e) >= 1,
    decreases e,
{
    if e > 0 {
        lemma_pow10_positive((e - 1) as nat);
    }
}

/// `floor(amount * bp / 10000)`, for basis points up to 10000.
pub open spec fn basis_points_spec(amount: u64, bp: u16) -> CommonResult<u64> {
    if bp > MAX_BASIS_POINTS {
        Err(CommonError::InvalidCalculation)
    } else {
        Ok(((amount * bp) / 10000) as u64)
    }
}

/// The share of `amount` given by `percentage_basis_points` (1/10000 units),
/// rounded down; basis points above 10000 fail with `InvalidCalculation`.
pub fn calculate_percentage(amount: u64, percentage_basis_points: u16) -> (r: CommonResult<u64>)
    ensures
        r == basis_points_spec(amount, percentage_basis_points),
        r is Ok ==> r->Ok_0 <= amount,
{
    if validate_basis_points(percentage_basis_points).is_err() {
        return Err(CommonError::InvalidCalculation);
    }
    assert(amount as u128 * percentage_basis_points as u128 <= u64::MAX as u128 * 10000)
        by (nonlinear_arith)
        requires percentage_basis_points <= 10000;
    let wide: u128 = amount as u128 * percentage_basis_points as u128;
    let result: u128 = wide / 10000;
    proof {
        lemma_share_bounded(amount as int, percentage_basis_points as int);
    }
    Ok(result as u64)
}

proof fn lemma_share_bounded(amount: int, bp: int)
    requires
        0 <= amount,
        0 <= bp <= 10000,
    ensures
        (amount * bp) / 10000 <= amount,
        0 <= (amount * bp) / 10000,
{
    assert(amount * bp <= amount * 10000) by (nonlinear_arith)
        requires 0 <= amount, bp <= 10000;
    assert(0 <= amount * bp) by (nonlinear_arith)
        requires 0 <= amount, 0 <= bp;
    assert((amount * 10000) / 10000 == amount) by (nonlinear_arith);
    vstd::arithmetic::div_mod::lemma_div_is_ordered(amount * bp, amount * 10000, 10000);
}

} // verus!
