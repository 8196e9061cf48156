use ledger_core::arith::{
    calculate_default_token_amount, calculate_percentage, calculate_token_amount,
    convert_to_base_units, get_precision_multiplier, is_safe_for_multiplication, pow10, safe_add,
    safe_div, safe_mul, safe_sub, validate_basis_points, validate_multiplication_safety,
    validate_precision,
};
use ledger_core::error::{CommonError, CustomError};
use ledger_core::number_theory::{
    calculate_batch_lcm, calculate_optimal_ratio, gcd, is_perfect_liquidity_amount,
    is_perfect_square, isqrt, lcm, mod_pow, token_sqrt,
};

#[test]
fn checked_mul_exact_when_it_fits() {
    assert_eq!(safe_mul(6, 7), Ok(42));
    assert_eq!(safe_mul(u64::MAX, 1), Ok(u64::MAX));
    assert_eq!(safe_mul(0, u64::MAX), Ok(0));
    assert_eq!(safe_mul(1 << 32, 1 << 31), Ok(1 << 63));
}

#[test]
fn checked_mul_fails_instead_of_wrapping() {
    assert_eq!(safe_mul(u64::MAX, 2), Err(CommonError::InvalidCalculation));
    assert_eq!(safe_mul(1 << 32, 1 << 32), Err(CommonError::InvalidCalculation));
}

#[test]
fn add_sub_div_checked() {
    assert_eq!(safe_add(2, 3), Ok(5));
    assert_eq!(safe_add(u64::MAX, 1), Err(CommonError::InvalidCalculation));
    assert_eq!(safe_sub(5, 3), Ok(2));
    assert_eq!(safe_sub(3, 5), Err(CommonError::InvalidCalculation));
    assert_eq!(safe_div(7, 2), Ok(3));
    assert_eq!(safe_div(7, 0), Err(CommonError::InvalidCalculation));
}

#[test]
fn basis_points_bounds() {
    for amount in [0u64, 1, 999, 1000, 12345, u64::MAX] {
        assert_eq!(calculate_percentage(amount, 0), Ok(0));
        assert_eq!(calculate_percentage(amount, 10000), Ok(amount));
        for bp in [1u16, 500, 9999] {
            assert!(calculate_percentage(amount, bp).unwrap() <= amount);
        }
    }
    assert_eq!(calculate_percentage(100, 500), Ok(5));
    assert_eq!(calculate_percentage(199, 50), Ok(0));
}

#[test]
fn basis_points_above_maximum_fail() {
    assert_eq!(calculate_percentage(100, 10001), Err(CommonError::InvalidCalculation));
    assert_eq!(validate_basis_points(10001), Err(CommonError::Custom(CustomError::BasisPointsTooLarge { basis_points: 10001 })));
    assert_eq!(validate_basis_points(10000), Ok(()));
}

#[test]
fn powers_of_ten() {
    assert_eq!(pow10(0), Ok(1));
    assert_eq!(pow10(6), Ok(1_000_000));
    assert_eq!(pow10(19), Ok(10_000_000_000_000_000_000));
    assert_eq!(pow10(20), Err(CommonError::InvalidCalculation));
    assert_eq!(get_precision_multiplier(9), Ok(1_000_000_000));
    assert_eq!(get_precision_multiplier(20), Err(CommonError::InvalidCalculation));
}

#[test]
fn scaling_by_decimals() {
    assert_eq!(calculate_token_amount(5, 6), Ok(5_000_000));
    assert_eq!(calculate_default_token_amount(5), Ok(5_000_000));
    assert_eq!(calculate_token_amount(1, 19), Ok(10_000_000_000_000_000_000));
    assert_eq!(calculate_token_amount(2, 19), Err(CommonError::InvalidCalculation));
    assert_eq!(calculate_token_amount(1, 20), Err(CommonError::InvalidCalculation));
    assert_eq!(convert_to_base_units(5_123_456, 6), Ok(5));
    assert_eq!(convert_to_base_units(5, 20), Err(CommonError::InvalidCalculation));
}

#[test]
fn multiplication_safety_and_precision() {
    assert!(is_safe_for_multiplication(0, u64::MAX));
    assert!(is_safe_for_multiplication(u64::MAX / 3, 3));
    assert!(!is_safe_for_multiplication(u64::MAX / 3 + 1, 3));
    assert_eq!(validate_multiplication_safety(2, 3), Ok(()));
    assert_eq!(
        validate_multiplication_safety(u64::MAX, 2),
        Err(CommonError::Custom(CustomError::MultiplicationOverflow))
    );
    assert_eq!(validate_precision(19), Ok(()));
    assert_eq!(
        validate_precision(20),
        Err(CommonError::Custom(CustomError::PrecisionTooLarge { decimals: 20 }))
    );
}

#[test]
fn floor_square_roots() {
    assert_eq!(isqrt(0), Ok(0));
    assert_eq!(isqrt(1), Ok(1));
    assert_eq!(isqrt(15), Ok(3));
    assert_eq!(isqrt(16), Ok(4));
    assert_eq!(isqrt(17), Ok(4));
    assert_eq!(isqrt(4294967295 * 4294967295), Ok(4294967295));
    assert_eq!(isqrt(4294967295 * 4294967295 + 1), Err(CommonError::InvalidCalculation));
    assert_eq!(token_sqrt(1_000_000), Ok(1000));
}

#[test]
fn perfect_squares() {
    assert_eq!(is_perfect_square(49), Ok(true));
    assert_eq!(is_perfect_square(50), Ok(false));
    assert_eq!(is_perfect_square(0), Ok(true));
    assert_eq!(is_perfect_liquidity_amount(1_000_000), Ok(true));
    assert_eq!(is_perfect_liquidity_amount(u64::MAX), Err(CommonError::InvalidCalculation));
}

#[test]
fn gcd_and_lcm() {
    assert_eq!(gcd(12, 18), 6);
    assert_eq!(gcd(7, 0), 7);
    assert_eq!(gcd(0, 0), 0);
    assert_eq!(lcm(4, 6), Ok(12));
    assert_eq!(lcm(0, 6), Ok(0));
    assert_eq!(lcm(u64::MAX, u64::MAX - 1), Err(CommonError::InvalidCalculation));
}

#[test]
fn ratios_and_batch_lcm() {
    assert_eq!(calculate_optimal_ratio(12, 18), Ok((2, 3)));
    assert_eq!(calculate_optimal_ratio(0, 18), Err(CommonError::InvalidCalculation));
    assert_eq!(calculate_batch_lcm(&[2, 3, 4]), Ok(12));
    assert_eq!(calculate_batch_lcm(&[5]), Ok(5));
    assert_eq!(calculate_batch_lcm(&[]), Err(CommonError::InvalidCalculation));
    assert_eq!(calculate_batch_lcm(&[u64::MAX, u64::MAX - 1, 2]), Err(CommonError::InvalidCalculation));
}

#[test]
fn modular_exponentiation() {
    assert_eq!(mod_pow(2, 10, 1000), Ok(24));
    assert_eq!(mod_pow(3, 0, 7), Ok(1));
    assert_eq!(mod_pow(5, 3, 1), Ok(0));
    assert_eq!(mod_pow(5, 3, 0), Err(CommonError::InvalidCalculation));
    assert_eq!(mod_pow(u64::MAX, 2, u64::MAX - 1), Ok(1));
}

#[test]
fn batch_lcm_with_zero_amounts() {
    assert_eq!(calculate_batch_lcm(&[0, 5]), Ok(0));
    assert_eq!(calculate_batch_lcm(&[4, 0, 6]), Ok(0));
    assert_eq!(calculate_batch_lcm(&[u64::MAX, u64::MAX - 1, 0]), Err(CommonError::InvalidCalculation));
    assert_eq!(calculate_batch_lcm(&[1u64 << 40, 3u64 << 30, 5]), Ok(15u64 << 40));
}
