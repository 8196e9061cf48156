use vstd::prelude::*;
use vstd::arithmetic::power::pow;
use crate::arith::SQRT_MAX_U64;
use crate::error::{CommonError, CommonResult};

verus! {

/// `r` is the floor square root of `n`.
pub open spec fn is_floor_sqrt(r: int, n: int) -> bool {
    0 <= r && r * r <= n && n < (r + 1) * (r + 1)
}

/// `n` is the square of some natural number.
pub open spec fn is_square(n: int) -> bool {
    exists|k: nat| #[trigger] (k * k) == n
}

spec fn sq(s: int) -> int {
    s * s
}

proof fn lemma_newton_step_bound(n: int, x: int, s: int)
    requires
        x >= 1,
        s >= 0,
        s * s <= n,
    ensures
        (x + n / x) / 2 >= s,
{
    let q = n / x;
    assert(n < (q + 1) * x) by (nonlinear_arith)
        requires q == n / x, x >= 1;
    if x + q < 2 * s {
        assert((q + 1) * x <= (2 * s - x) * x) by (nonlinear_arith)
            requires x + q + 1 <= 2 * s, x >= 1;
        assert((2 * s - x) * x <= s * s) by (nonlinear_arith);
    }
}

proof fn lemma_newton_sum_fits(n: int, x: int)
    requires
        1 <= x <= n,
    ensures
        x + n / x <= n + 1,
{
    assert(x * (n + 1 - x) >= n) by (nonlinear_arith)
        requires 1 <= x <= n;
    assert(n / x <= n + 1 - x) by (nonlinear_arith)
        requires x * (n + 1 - x) >= n, x >= 1, n >= 0;
}

proof fn lemma_newton_fixed_point(n: int, x: int)
    requires
        x >= 1,
        (x + n / x) / 2 >= x,
        n >= 0,
    ensures
        x * x <= n,
{
    if x * x > n {
        assert(n / x < x) by (nonlinear_arith)
            requires x * x > n, x >= 1, n >= 0;
    }
}

/// Floor square root by Newton iteration, for inputs up to `SQRT_MAX_U64^2`.
pub fn isqrt(n: u64) -> (r: CommonResult<u64>)
    ensures
        n > SQRT_MAX_U64 * SQRT_MAX_U64 ==> r == Err::<u64, CommonError>(
            CommonError::InvalidCalculation,
        ),
        n <= SQRT_MAX_U64 * SQRT_MAX_U64 ==> r is Ok && is_floor_sqrt(r->Ok_0 as int, n as int),
{
    assert(SQRT_MAX_U64 * SQRT_MAX_U64 == 18446744065119617025u64);
    let limit: u64 = SQRT_MAX_U64 * SQRT_MAX_U64;
    if n > limit {
        return Err(CommonError::InvalidCalculation);
    }
    if n == 0 {
        return Ok(0);
    }
    let mut x: u64 = n;
    let mut y: u64 = (n + 1) / 2;
    proof {
        assert forall|s: int| s >= 0 && #[trigger] sq(s) <= n implies s <= x by {
            assert(s <= s * s || s == 0) by (nonlinear_arith)
                requires s >= 0;
        }
    }
    while y < x
        invariant
            1 <= x <= n,
            n <= limit,
            limit == 18446744065119617025u64,
            y == (x + n / x) / 2,
            forall|s: int| s >= 0 && #[trigger] sq(s) <= n ==> s <= x,
        decreases x,
    {
        proof {
            assert forall|s: int| s >= 0 && #[trigger] sq(s) <= n implies s <= y by {
                lemma_newton_step_bound(n as int, x as int, s);
            }
            assert(sq(1) <= n);
        }
        x = y;
        proof {
            lemma_newton_sum_fits(n as int, x as int);
        }
        y = (x + n / x) / 2;
    }
    proof {
        lemma_newton_fixed_point(n as int, x as int);
        assert(!(sq(x + 1) <= n));
    }
    Ok(x)
}

/// Greatest common divisor by Euclid's rule.
pub open spec fn gcd_spec(a: nat, b: nat) -> nat
    decreases b,
{
    if b == 0 {
        a
    } else {
        gcd_spec(b, a % b)
    }
}

/// `d` divides `n`.
pub open spec fn divides(d: nat, n: nat) -> bool {
    exists|k: nat| #[trigger] (d * k) == n
}

proof fn lemma_divides_mod(d: nat, a: nat, b: nat)
    requires
        b > 0,
        divides(d, b),
    ensures
        divides(d, a % b) <==> divides(d, a),
{
    let kb = choose|k: nat| #[trigger] (d * k) == b;
    let q = a / b;
    let r = a % b;
    assert(a == b * q + r) by (nonlinear_arith)
        requires q == a / b, r == a % b, b > 0;
    assert(b * q == d * (kb * q)) by (nonlinear_arith)
        requires d * kb == b;
    if divides(d, r) {
        let kr = choose|k: nat| #[trigger] (d * k) == r;
        assert(d * (kb * q + kr) == a) by (nonlinear_arith)
            requires a == b * q + r, b * q == d * (kb * q), d * kr == r;
    }
    if divides(d, a) {
        let ka = choose|k: nat| #[trigger] (d * k) == a;
        assert(r <= a);
        if d == 0 {
            assert(a == 0 && b == 0) by (nonlinear_arith)
                requires d * ka == a, d * kb == b, d == 0;
        } else {
            assert(ka >= kb * q) by (nonlinear_arith)
                requires d * ka == a, a >= b * q, b * q == d * (kb * q), d > 0;
            assert(d * ((ka - kb * q) as nat) == r) by (nonlinear_arith)
                requires d * ka == a, a == b * q + r, b * q == d * (kb * q), ka >= kb * q;
        }
    }
}

/// `gcd_spec(a, b)` divides both arguments, and every common divisor divides it.
pub proof fn lemma_gcd_is_greatest_common_divisor(a: nat, b: nat, d: nat)
    ensures
        divides(gcd_spec(a, b), a),
        divides(gcd_spec(a, b), b),
        divides(d, a) && divides(d, b) ==> divides(d, gcd_spec(a, b)),
    decreases b,
{
    if b == 0 {
        assert(gcd_spec(a, b) * 1 == a);
        assert(gcd_spec(a, b) * 0 == 0);
    } else {
        lemma_gcd_is_greatest_common_divisor(b, a % b, d);
        let g = gcd_spec(a, b);
        lemma_divides_mod(g, a, b);
        if divides(d, b) {
            lemma_divides_mod(d, a, b);
        }
    }
}

/// The greatest common divisor of `a` and `b`; `gcd(a, 0) == a`.
pub fn gcd(first: u64, second: u64) -> (r: u64)
    ensures
        r == gcd_spec(first as nat, second as nat),
        divides(r as nat, first as nat),
        divides(r as nat, second as nat),
        forall|d: nat| divides(d, first as nat) && divides(d, second as nat) ==> #[trigger] divides(d, r as nat),
{
    proof {
        assert forall|d: nat| divides(d, first as nat) && divides(d, second as nat) implies #[trigger] divides(
            d,
            gcd_spec(first as nat, second as nat),
        ) by {
            lemma_gcd_is_greatest_common_divisor(first as nat, second as nat, d);
        }
        lemma_gcd_is_greatest_common_divisor(first as nat, second as nat, 0);
    }
    let mut a = first;
    let mut b = second;
    while b != 0
        invariant
            gcd_spec(a as nat, b as nat) == gcd_spec(first as nat, second as nat),
        decreases b,
    {
        let temp = b;
        b = a % b;
        a = temp;
    }
    a
}

proof fn lemma_gcd_positive(a: nat, b: nat)
    requires
        a > 0 || b > 0,
    ensures
        gcd_spec(a, b) > 0,
    decreases b,
{
    if b > 0 {
        lemma_gcd_positive(b, a % b);
    }
}

/// Least common multiple as computed with 64-bit checks: `a * (b / gcd(a, b))`,
/// and zero when either side is zero.
pub open spec fn lcm_spec(a: nat, b: nat) -> int {
    if a == 0 || b == 0 {
        0
    } else {
        (a * (b / gcd_spec(a, b))) as int
    }
}

/// The least common multiple of `a` and `b`, failing when it does not fit in 64 bits.
pub fn lcm(a: u64, b: u64) -> (r: CommonResult<u64>)
    ensures
        lcm_spec(a as nat, b as nat) <= u64::MAX ==> r == Ok::<u64, CommonError>(
            lcm_spec(a as nat, b as nat) as u64,
        ),
        lcm_spec(a as nat, b as nat) > u64::MAX ==> r == Err::<u64, CommonError>(
            CommonError::InvalidCalculation,
        ),
{
    if a == 0 || b == 0 {
        return Ok(0);
    }
    let gcd_val = gcd(a, b);
    proof {
        lemma_gcd_positive(a as nat, b as nat);
    }
    match a.checked_mul(b / gcd_val) {
        Some(v) => Ok(v),
        None => Err(CommonError::InvalidCalculation),
    }
}

/// Whether `n` is a perfect square, for inputs up to `SQRT_MAX_U64^2`.
pub fn is_perfect_square(n: u64) -> (r: CommonResult<bool>)
    ensures
        n > SQRT_MAX_U64 * SQRT_MAX_U64 ==> r == Err::<bool, CommonError>(
            CommonError::InvalidCalculation,
        ),
        n <= SQRT_MAX_U64 * SQRT_MAX_U64 ==> r == Ok::<bool, CommonError>(is_square(n as int)),
{
    let sqrt_n = isqrt(n)?;
    proof {
        let r = sqrt_n as int;
        assert(r * r <= u64::MAX);
        if is_square(n as int) {
            let k = choose|k: nat| #[trigger] (k * k) == n as int;
            if (k as int) < r {
                assert(k * k < r * r) by (nonlinear_arith)
                    requires 0 <= k < r;
            }
            if (k as int) > r {
                assert(k * k >= (r + 1) * (r + 1)) by (nonlinear_arith)
                    requires k >= r + 1, r >= 0;
            }
        }
        if r * r == n as int {
            assert((r as nat) * (r as nat) == n as int);
        }
    }
    Ok(sqrt_n * sqrt_n == n)
}

proof fn lemma_mod_pow_step(result: int, b: int, e: nat, m: int)
    requires
        m > 1,
    ensures
        ((if e % 2 == 1 { (result * b) % m } else { result }) * pow((b * b) % m, e / 2)) % m
            == (result * pow(b, e)) % m,
{
    let k: nat = e / 2;
    let r: nat = e % 2;
    let t = pow(b * b, k);
    let p = pow((b * b) % m, k);
    vstd::arithmetic::power::lemma_square_is_pow2(b);
    vstd::arithmetic::power::lemma_pow_multiplies(b, 2, k);
    assert(pow(b, 2 * k) == t);
    vstd::arithmetic::power::lemma_pow_adds(b, 2 * k, r);
    assert(e == 2 * k + r);
    assert(pow(b, e) == t * pow(b, r));
    vstd::arithmetic::power::lemma_pow_mod_noop(b * b, k, m);
    assert(p % m == t % m);
    if r == 1 {
        vstd::arithmetic::power::lemma_pow1(b);
        let x = (result * b) % m;
        vstd::arithmetic::div_mod::lemma_mul_mod_noop(x, p, m);
        vstd::arithmetic::div_mod::lemma_mod_twice(result * b, m);
        assert((x * p) % m == (x * (t % m)) % m);
        vstd::arithmetic::div_mod::lemma_mul_mod_noop(result * b, t, m);
        assert((x * p) % m == ((result * b) * t) % m);
        assert((result * b) * t == result * (t * b)) by (nonlinear_arith);
    } else {
        vstd::arithmetic::power::lemma_pow0(b);
        assert(pow(b, e) == t);
        vstd::arithmetic::div_mod::lemma_mul_mod_noop(result, p, m);
        vstd::arithmetic::div_mod::lemma_mul_mod_noop(result, t, m);
        assert((result * p) % m == (result * t) % m);
    }
}

/// `(base ^ exp) % modulus`, failing when `modulus == 0`.
pub fn mod_pow(base: u64, exp: u64, modulus: u64) -> (r: CommonResult<u64>)
    ensures
        modulus == 0 ==> r == Err::<u64, CommonError>(CommonError::InvalidCalculation),
        modulus > 0 ==> r == Ok::<u64, CommonError>(
            (pow(base as int, exp as nat) % (modulus as int)) as u64,
        ),
{
    if modulus == 0 {
        return Err(CommonError::InvalidCalculation);
    }
    if modulus == 1 {
        return Ok(0);
    }
    let mut result: u64 = 1;
    let mut b: u64 = base % modulus;
    let mut e: u64 = exp;
    proof {
        vstd::arithmetic::power::lemma_pow_mod_noop(base as int, exp as nat, modulus as int);
        vstd::arithmetic::div_mod::lemma_mul_mod_noop_left(1, pow(b as int, e as nat), modulus as int);
    }
    while e > 0
        invariant
            modulus > 1,
            result < modulus,
            b < modulus,
            (result * pow(b as int, e as nat)) % (modulus as int) == pow(base as int, exp as nat)
                % (modulus as int),
        decreases e,
    {
        proof {
            lemma_mod_pow_step(result as int, b as int, e as nat, modulus as int);
        }
        assert(b as u128 * b as u128 <= u64::MAX as u128 * u64::MAX as u128) by (nonlinear_arith)
            requires b <= u64::MAX;
        assert(result as u128 * b as u128 <= u64::MAX as u128 * u64::MAX as u128)
            by (nonlinear_arith)
            requires b <= u64::MAX, result <= u64::MAX;
        if e % 2 == 1 {
            result = (result as u128 * b as u128 % modulus as u128) as u64;
        }
        e = e / 2;
        b = (b as u128 * b as u128 % modulus as u128) as u64;
    }
    proof {
        vstd::arithmetic::power::lemma_pow0(b as int);
        vstd::arithmetic::div_mod::lemma_small_mod(result as nat, modulus as nat);
    }
    Ok(result)
}

/// Floor square root of a token amount, for liquidity calculations.
pub fn token_sqrt(amount: u64) -> (r: CommonResult<u64>)
    ensures
        amount > SQRT_MAX_U64 * SQRT_MAX_U64 ==> r == Err::<u64, CommonError>(
            CommonError::InvalidCalculation,
        ),
        amount <= SQRT_MAX_U64 * SQRT_MAX_U64 ==> r is Ok && is_floor_sqrt(
            r->Ok_0 as int,
            amount as int,
        ),
{
    isqrt(amount)
}

/// Both amounts divided by their greatest common divisor; zero amounts fail.
pub fn calculate_optimal_ratio(amount_a: u64, amount_b: u64) -> (r: CommonResult<(u64, u64)>)
    ensures
        amount_a == 0 || amount_b == 0 ==> r == Err::<(u64, u64), CommonError>(
            CommonError::InvalidCalculation,
        ),
        amount_a != 0 && amount_b != 0 ==> gcd_spec(amount_a as nat, amount_b as nat) > 0
            && r == Ok::<(u64, u64), CommonError>(
            (
                (amount_a as nat / gcd_spec(amount_a as nat, amount_b as nat)) as u64,
                (amount_b as nat / gcd_spec(amount_a as nat, amount_b as nat)) as u64,
            ),
        ),
{
    if amount_a == 0 || amount_b == 0 {
        return Err(CommonError::InvalidCalculation);
    }
    let g = gcd(amount_a, amount_b);
    proof {
        lemma_gcd_positive(amount_a as nat, amount_b as nat);
    }
    Ok((amount_a / g, amount_b / g))
}

/// Least common multiple of the first `n` amounts (`n >= 1`), unbounded.
pub open spec fn lcm_of(amounts: Seq<u64>, n: nat) -> nat
    decreases n,
{
    if n <= 1 {
        amounts[0] as nat
    } else {
        lcm_spec(lcm_of(amounts, (n - 1) as nat), amounts[n - 1] as nat) as nat
    }
}

/// Some partial least common multiple of the amounts exceeds 64 bits.
pub open spec fn some_partial_lcm_overflows(amounts: Seq<u64>) -> bool {
    exists|k: nat| 1 <= k <= amounts.len() && #[trigger] lcm_of(amounts, k) > u64::MAX
}

proof fn lemma_lcm_at_least_left(x: nat, y: nat)
    requires
        x > 0,
        y > 0,
    ensures
        lcm_spec(x, y) >= x,
{
    lemma_gcd_positive(x, y);
    lemma_gcd_is_greatest_common_divisor(x, y, 0);
    let g = gcd_spec(x, y);
    let k = choose|k: nat| #[trigger] (g * k) == y;
    assert(k >= 1) by (nonlinear_arith)
        requires g * k == y, y > 0;
    assert(y / g == k) by (nonlinear_arith)
        requires g * k == y, g > 0;
    assert(x * k >= x) by (nonlinear_arith)
        requires k >= 1;
}

proof fn lemma_lcm_of_positive(amounts: Seq<u64>, k: nat)
    requires
        1 <= k <= amounts.len(),
        forall|i: int| 0 <= i < amounts.len() ==> amounts[i] > 0,
    ensures
        lcm_of(amounts, k) > 0,
    decreases k,
{
    if k > 1 {
        lemma_lcm_of_positive(amounts, (k - 1) as nat);
        lemma_lcm_at_least_left(lcm_of(amounts, (k - 1) as nat), amounts[k - 1] as nat);
    }
}

proof fn lemma_lcm_of_grows(amounts: Seq<u64>, k: nat, n: nat)
    requires
        1 <= k <= n <= amounts.len(),
        forall|i: int| 0 <= i < amounts.len() ==> amounts[i] > 0,
    ensures
        0 < lcm_of(amounts, k) <= lcm_of(amounts, n),
    decreases n - k,
{
    lemma_lcm_of_positive(amounts, k);
    if k < n {
        lemma_lcm_of_grows(amounts, k + 1, n);
        lemma_lcm_at_least_left(lcm_of(amounts, k), amounts[k as int] as nat);
    }
}

/// Least common multiple of all amounts; an empty list fails, and so does a
/// partial result over 64 bits. For positive amounts that is exactly when
/// the least common multiple of all of them exceeds 64 bits.
pub fn calculate_batch_lcm(amounts: &[u64]) -> (r: CommonResult<u64>)
    ensures
        amounts@.len() == 0 ==> r == Err::<u64, CommonError>(CommonError::InvalidCalculation),
        amounts@.len() > 0 ==> r == (if some_partial_lcm_overflows(amounts@) {
            Err::<u64, CommonError>(CommonError::InvalidCalculation)
        } else {
            Ok(lcm_of(amounts@, amounts@.len()) as u64)
        }),
        amounts@.len() > 0 && (forall|i: int| 0 <= i < amounts@.len() ==> amounts@[i] > 0) ==> r == (
        if lcm_of(amounts@, amounts@.len()) > u64::MAX {
            Err::<u64, CommonError>(CommonError::InvalidCalculation)
        } else {
            Ok(lcm_of(amounts@, amounts@.len()) as u64)
        }),
{
    if amounts.len() == 0 {
        return Err(CommonError::InvalidCalculation);
    }
    proof {
        if forall|i: int| 0 <= i < amounts@.len() ==> amounts@[i] > 0 {
            if lcm_of(amounts@, amounts@.len()) <= u64::MAX {
                assert forall|k: nat| 1 <= k <= amounts@.len() implies !(#[trigger] lcm_of(amounts@, k) > u64::MAX) by {
                    lemma_lcm_of_grows(amounts@, k, amounts@.len());
                }
            }
        }
    }
    let mut result = amounts[0];
    let mut i: usize = 1;
    while i < amounts.len()
        invariant
            1 <= i <= amounts@.len(),
            lcm_of(amounts@, i as nat) == result,
            forall|k: nat| 1 <= k <= i ==> #[trigger] lcm_of(amounts@, k) <= u64::MAX,
        decreases amounts@.len() - i,
    {
        let next = lcm(result, amounts[i]);
        match next {
            Ok(v) => {
                result = v;
            },
            Err(e) => {
                proof {
                    assert(lcm_of(amounts@, (i + 1) as nat) > u64::MAX);
                    if forall|j: int| 0 <= j < amounts@.len() ==> amounts@[j] > 0 {
                        lemma_lcm_of_grows(amounts@, (i + 1) as nat, amounts@.len());
                    }
                }
                return Err(e);
            },
        }
        i = i + 1;
    }
    Ok(result)
}

/// Whether an amount is a perfect square, for liquidity pools.
pub fn is_perfect_liquidity_amount(amount: u64) -> (r: CommonResult<bool>)
    ensures
        amount > SQRT_MAX_U64 * SQRT_MAX_U64 ==> r == Err::<bool, CommonError>(
            CommonError::InvalidCalculation,
        ),
        amount <= SQRT_MAX_U64 * SQRT_MAX_U64 ==> r == Ok::<bool, CommonError>(
            is_square(amount as int),
        ),
{
    is_perfect_square(amount)
}

} // verus!
