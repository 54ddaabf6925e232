//! JavaScript numbers as bit patterns.
//!
//! A number is the 64-bit pattern of an IEEE 754 double. This module classifies
//! and compares such patterns and converts between them and machine integers;
//! everything is integer arithmetic on the pattern. The model of a pattern is
//! the integer that it stands for, scaled by two to the power 1074 (the smallest
//! subnormal has the scaled value 1).
use vstd::prelude::*;
use vstd::arithmetic::div_mod::{lemma_div_denominator, lemma_div_multiples_vanish, lemma_mod_multiples_basic, lemma_mul_mod_noop_left};
use vstd::arithmetic::power2::{lemma_pow2_adds, lemma_pow2_pos, lemma_pow2_strictly_increases, pow2, lemma2_to64, lemma2_to64_rest};

verus! {

/// The pattern of `-0`; patterns from here on are negative.
pub const SIGN: u64 = 0x8000_0000_0000_0000;
/// The pattern of positive infinity.
pub const INFINITY: u64 = 0x7ff0_0000_0000_0000;
/// The pattern of negative infinity.
pub const NEG_INFINITY: u64 = 0xfff0_0000_0000_0000;
/// The pattern of the canonical not-a-number.
pub const NAN: u64 = 0x7ff8_0000_0000_0000;
/// The weight of the hidden leading bit of a normal number's fraction.
pub const HIDDEN: u64 = 0x10_0000_0000_0000;
/// The pattern of `1`.
pub const ONE: u64 = 0x3ff0_0000_0000_0000;

/// The pattern without its sign.
pub open spec fn magnitude(b: u64) -> u64 {
    if b >= SIGN { (b - SIGN) as u64 } else { b }
}

/// Whether the sign is set.
pub open spec fn negative(b: u64) -> bool {
    b >= SIGN
}

/// Whether the pattern is a not-a-number.
pub open spec fn nan(b: u64) -> bool {
    magnitude(b) > INFINITY
}

/// Whether the pattern is one of the infinities.
pub open spec fn infinite(b: u64) -> bool {
    magnitude(b) == INFINITY
}

/// Whether the pattern is `0` or `-0`.
pub open spec fn zero(b: u64) -> bool {
    magnitude(b) == 0
}

/// The absolute value of a pattern in units of the smallest subnormal. (For the
/// infinities this is a number above that of every finite pattern.)
pub open spec fn scaled(b: u64) -> nat {
    scaled_parts((magnitude(b) / HIDDEN) as nat, (magnitude(b) % HIDDEN) as nat)
}

/// The scaled value of an exponent field and a fraction field.
pub open spec fn scaled_parts(e: nat, f: nat) -> nat {
    if e == 0 { f } else { (HIDDEN + f) as nat * pow2((e - 1) as nat) }
}

/// The value of a pattern in units of the smallest subnormal.
pub open spec fn signed(b: u64) -> int {
    if negative(b) { -(scaled(b) as int) } else { scaled(b) as int }
}

/// The integer part of a pattern, rounded toward zero.
pub open spec fn truncated(b: u64) -> int {
    let t = (scaled(b) / pow2(1074)) as int;
    if negative(b) { -t } else { t }
}

/// Numeric equality: false for a not-a-number, true for `0` and `-0`.
pub open spec fn num_eq(a: u64, b: u64) -> bool {
    !nan(a) && !nan(b) && signed(a) == signed(b)
}

/// Numeric order: false when an operand is a not-a-number.
pub open spec fn num_lt(a: u64, b: u64) -> bool {
    !nan(a) && !nan(b) && signed(a) < signed(b)
}

/// Numeric order or equality: false when an operand is a not-a-number.
pub open spec fn num_le(a: u64, b: u64) -> bool {
    !nan(a) && !nan(b) && signed(a) <= signed(b)
}

proof fn lemma_parts_order(e1: nat, f1: nat, e2: nat, f2: nat)
    requires
        f1 < HIDDEN,
        f2 < HIDDEN,
        e1 * HIDDEN + f1 < e2 * HIDDEN + f2,
    ensures
        scaled_parts(e1, f1) < scaled_parts(e2, f2),
{
    assert(e1 <= e2) by (nonlinear_arith)
        requires
            f1 < HIDDEN,
            f2 < HIDDEN,
            e1 * HIDDEN + f1 < e2 * HIDDEN + f2,
            HIDDEN == 0x10_0000_0000_0000u64,
    ;
    if e1 == e2 {
        assert(f1 < f2);
        if e1 > 0 {
            let p = pow2((e1 - 1) as nat);
            lemma_pow2_pos((e1 - 1) as nat);
            assert((HIDDEN + f1) * p < (HIDDEN + f2) * p) by (nonlinear_arith)
                requires
                    f1 < f2,
                    p > 0,
            ;
        }
    } else {
        let q = pow2((e2 - 1) as nat);
        lemma_pow2_pos((e2 - 1) as nat);
        if e1 == 0 {
            assert((HIDDEN + f2) * q >= HIDDEN) by (nonlinear_arith)
                requires
                    q >= 1,
                    f2 >= 0,
            ;
        } else {
            let p = pow2((e1 - 1) as nat);
            lemma_pow2_pos((e1 - 1) as nat);
            assert(q >= 2 * p) by {
                lemma_pow2_adds(1, (e1 - 1) as nat);
                lemma2_to64();
                lemma2_to64_rest();
                if e1 < e2 - 1 {
                    lemma_pow2_strictly_increases(e1, (e2 - 1) as nat);
                }
            }
            assert((HIDDEN + f1) * p < (HIDDEN + f2) * q) by (nonlinear_arith)
                requires
                    f1 < HIDDEN,
                    f2 >= 0,
                    q >= 2 * p,
                    p > 0,
            ;
        }
    }
}

/// Patterns of one sign are ordered as the values they stand for.
pub proof fn lemma_magnitude_order(a: u64, b: u64)
    ensures
        magnitude(a) < magnitude(b) <==> scaled(a) < scaled(b),
        magnitude(a) == magnitude(b) <==> scaled(a) == scaled(b),
{
    let x = magnitude(a);
    let y = magnitude(b);
    assert(x == (x / HIDDEN) * HIDDEN + x % HIDDEN);
    assert(y == (y / HIDDEN) * HIDDEN + y % HIDDEN);
    if x < y {
        lemma_parts_order((x / HIDDEN) as nat, (x % HIDDEN) as nat, (y / HIDDEN) as nat, (y % HIDDEN) as nat);
    } else if y < x {
        lemma_parts_order((y / HIDDEN) as nat, (y % HIDDEN) as nat, (x / HIDDEN) as nat, (x % HIDDEN) as nat);
    }
}

proof fn lemma_zero_scaled(a: u64)
    ensures
        zero(a) <==> scaled(a) == 0,
{
    lemma_magnitude_order(a, 0);
    assert(scaled(0) == 0);
}

fn mag(b: u64) -> (r: u64)
    ensures
        r == magnitude(b),
{
    if b >= SIGN { b - SIGN } else { b }
}

/// Whether the pattern is a not-a-number.
#[verifier::allow_in_spec]
pub fn is_nan(b: u64) -> (r: bool)
    returns
        nan(b),
{
    mag(b) > INFINITY
}

/// Whether the pattern is one of the infinities.
pub fn is_infinite(b: u64) -> (r: bool)
    ensures
        r == infinite(b),
{
    mag(b) == INFINITY
}

/// Whether the pattern is `0` or `-0`.
pub fn is_zero(b: u64) -> (r: bool)
    ensures
        r == zero(b),
{
    mag(b) == 0
}

/// Numeric equality.
pub fn number_eq(a: u64, b: u64) -> (r: bool)
    ensures
        r == num_eq(a, b),
{
    proof {
        lemma_magnitude_order(a, b);
        lemma_zero_scaled(a);
        lemma_zero_scaled(b);
    }
    !is_nan(a) && !is_nan(b) && (a == b || (is_zero(a) && is_zero(b)))
}

/// Numeric order.
#[verifier::allow_in_spec]
pub fn number_lt(a: u64, b: u64) -> (r: bool)
    returns
        num_lt(a, b),
{
    proof {
        lemma_magnitude_order(a, b);
        lemma_magnitude_order(b, a);
        lemma_zero_scaled(a);
        lemma_zero_scaled(b);
    }
    if is_nan(a) || is_nan(b) {
        false
    } else if a >= SIGN {
        if b >= SIGN {
            mag(b) < mag(a)
        } else {
            !(is_zero(a) && is_zero(b))
        }
    } else if b >= SIGN {
        false
    } else {
        mag(a) < mag(b)
    }
}

/// Numeric order or equality.
#[verifier::allow_in_spec]
pub fn number_le(a: u64, b: u64) -> (r: bool)
    returns
        num_le(a, b),
{
    number_lt(a, b) || number_eq(a, b)
}

/// The pattern with the other sign.
#[verifier::allow_in_spec]
pub fn negated(b: u64) -> (r: u64)
    ensures
        nan(r) == nan(b),
        !nan(b) ==> signed(r) == -signed(b),
    returns
        (if negative(b) { (b - SIGN) as u64 } else { (b + SIGN) as u64 }),
{
    if b >= SIGN { b - SIGN } else { b + SIGN }
}

proof fn lemma_shift_parts(e: nat, f: nat)
    requires
        1 <= e < 2047,
        f < HIDDEN,
    ensures
        e < 1023 ==> scaled_parts(e, f) / pow2(1074) == 0,
        1023 <= e <= 1075 ==> scaled_parts(e, f) / pow2(1074) == (HIDDEN + f) as nat / pow2((1075 - e) as nat),
        1075 < e ==> scaled_parts(e, f) / pow2(1074) == (HIDDEN + f) as nat * pow2((e - 1075) as nat),
{
    let sig = (HIDDEN + f) as nat;
    let p = pow2((e - 1) as nat);
    lemma_pow2_pos((e - 1) as nat);
    lemma_pow2_pos(1074);
    if e <= 1075 {
        let q = pow2((1075 - e) as nat);
        lemma_pow2_pos((1075 - e) as nat);
        lemma_pow2_adds((e - 1) as nat, (1075 - e) as nat);
        assert(pow2(1074) == p * q);
        assert(sig * p == p * sig) by (nonlinear_arith);
        lemma_div_denominator((sig * p) as int, p as int, q as int);
        lemma_div_multiples_vanish(sig as int, p as int);
        assert((sig * p) / p == sig);
        if e < 1023 {
            assert(q > sig) by {
                lemma2_to64();
                lemma2_to64_rest();
                assert(pow2(53) == 2 * HIDDEN);
                lemma_pow2_strictly_increases(52, (1075 - e) as nat);
                if 1075 - e > 53 {
                    lemma_pow2_strictly_increases(53, (1075 - e) as nat);
                }
            }
            assert(sig / q == 0) by (nonlinear_arith)
                requires
                    0 <= sig < q,
            ;
        }
    } else {
        let q = pow2((e - 1075) as nat);
        lemma_pow2_adds(1074, (e - 1075) as nat);
        assert(p == pow2(1074) * q);
        assert(sig * (pow2(1074) * q) == (sig * q) * pow2(1074)) by (nonlinear_arith);
        lemma_div_multiples_vanish((sig * q) as int, pow2(1074) as int);
        assert(((sig * q) * pow2(1074)) / pow2(1074) == sig * q) by {
            assert((sig * q) * pow2(1074) == pow2(1074) * (sig * q)) by (nonlinear_arith);
        }
    }
}

proof fn lemma_small_scaled(f: nat)
    requires
        f < HIDDEN,
    ensures
        f / pow2(1074) == 0,
{
    lemma2_to64();
    lemma2_to64_rest();
    lemma_pow2_strictly_increases(52, 1074);
    assert(f / pow2(1074) == 0) by (nonlinear_arith)
        requires
            0 <= f < pow2(1074),
    ;
}

/// The low 32 bits of the integer part of a finite pattern's absolute value.
fn low32(b: u64) -> (r: u32)
    requires
        !nan(b),
        !infinite(b),
    ensures
        r == (scaled(b) / pow2(1074)) % 0x1_0000_0000,
{
    let m = mag(b);
    let e = m / HIDDEN;
    let f = m % HIDDEN;
    assert(e < 2047);
    if e == 0 {
        proof {
            lemma_small_scaled(f as nat);
        }
        return 0;
    }
    proof {
        lemma_shift_parts(e as nat, f as nat);
    }
    if e < 1023 {
        return 0;
    }
    let sig: u64 = HIDDEN + f;
    if e <= 1075 {
        let k: u64 = 1075 - e;
        proof {
            vstd::bits::lemma_u64_shr_is_div(sig, k);
        }
        let t: u64 = sig >> k;
        (t % 0x1_0000_0000) as u32
    } else {
        let k: u64 = e - 1075;
        if k >= 32 {
            proof {
                lemma_pow2_adds(32, (k - 32) as nat);
                lemma2_to64();
                lemma2_to64_rest();
                let q = pow2((k - 32) as nat);
                assert(sig * (0x1_0000_0000 * q) == (sig * q) * 0x1_0000_0000) by (nonlinear_arith);
                lemma_mod_multiples_basic((sig * q) as int, 0x1_0000_0000);
            }
            0
        } else {
            let low: u64 = sig % 0x1_0000_0000;
            proof {
                lemma2_to64();
                lemma2_to64_rest();
                let p = pow2(k as nat);
                lemma_pow2_pos(k as nat);
                assert(p <= 0x8000_0000) by {
                    if k < 31 {
                        lemma_pow2_strictly_increases(k as nat, 31);
                    }
                }
                assert(low * p <= 0xffff_ffff_ffff_ffff) by (nonlinear_arith)
                    requires
                        low < 0x1_0000_0000,
                        p <= 0x8000_0000,
                ;
                vstd::bits::lemma_u64_shl_is_mul(low, k);
                lemma_mul_mod_noop_left(sig as int, p as int, 0x1_0000_0000);
            }
            let t: u64 = low << k;
            (t % 0x1_0000_0000) as u32
        }
    }
}

/// The conversion to an unsigned 64-bit integer that saturates: zero for a
/// not-a-number and for negative numbers, the largest integer for what lies above.
pub open spec fn saturated(b: u64, max: nat) -> nat {
    if nan(b) || negative(b) {
        0
    } else if scaled(b) / pow2(1074) > max {
        max
    } else {
        scaled(b) / pow2(1074)
    }
}

proof fn lemma_infinite_large()
    ensures
        scaled_parts(2047, 0) / pow2(1074) > u64::MAX,
{
    lemma2_to64();
    lemma2_to64_rest();
    lemma_pow2_adds(1074, 972);
    lemma_pow2_pos(1074);
    let q = pow2(972);
    assert(HIDDEN as nat * (pow2(1074) * q) == (HIDDEN * q) * pow2(1074)) by (nonlinear_arith);
    lemma_div_multiples_vanish((HIDDEN * q) as int, pow2(1074) as int);
    lemma_pow2_strictly_increases(64, 972);
    assert(HIDDEN * q > u64::MAX) by (nonlinear_arith)
        requires
            q > u64::MAX,
            HIDDEN >= 1,
    ;
}

/// Converts to an unsigned 64-bit integer, saturating.
pub fn to_u64(b: u64) -> (r: u64)
    ensures
        r == saturated(b, u64::MAX as nat),
{
    if is_nan(b) || b >= SIGN {
        return 0;
    }
    let e = b / HIDDEN;
    let f = b % HIDDEN;
    if e == 0 {
        proof {
            lemma_small_scaled(f as nat);
        }
        return 0;
    }
    if e == 2047 {
        proof {
            assert(b == INFINITY);
            lemma_infinite_large();
        }
        return u64::MAX;
    }
    proof {
        lemma_shift_parts(e as nat, f as nat);
        lemma2_to64();
        lemma2_to64_rest();
    }
    if e < 1023 {
        return 0;
    }
    let sig: u64 = HIDDEN + f;
    if e <= 1075 {
        let k: u64 = 1075 - e;
        proof {
            vstd::bits::lemma_u64_shr_is_div(sig, k);
        }
        sig >> k
    } else {
        let k: u64 = e - 1075;
        if k >= 12 {
            proof {
                let p = pow2(k as nat);
                if k > 12 {
                    lemma_pow2_strictly_increases(12, k as nat);
                }
                assert(sig * p > u64::MAX) by (nonlinear_arith)
                    requires
                        sig >= HIDDEN,
                        p >= 4096,
                        HIDDEN == 0x10_0000_0000_0000u64,
                ;
            }
            u64::MAX
        } else {
            proof {
                let p = pow2(k as nat);
                if k < 11 {
                    lemma_pow2_strictly_increases(k as nat, 11);
                }
                assert(sig * p <= u64::MAX) by (nonlinear_arith)
                    requires
                        sig < 2 * HIDDEN,
                        p <= 2048,
                        HIDDEN == 0x10_0000_0000_0000u64,
                ;
                vstd::bits::lemma_u64_shl_is_mul(sig, k);
            }
            sig << k
        }
    }
}

/// Converts to a `usize`, saturating.
#[verifier::allow_in_spec]
pub fn to_usize(b: u64) -> (r: usize)
    ensures
        r == saturated(b, usize::MAX as nat),
    returns
        saturated(b, usize::MAX as nat) as usize,
{
    let n = to_u64(b);
    if n > usize::MAX as u64 {
        usize::MAX
    } else {
        n as usize
    }
}

/// `ToUint32`: the integer part modulo two to the power 32; zero for what is not
/// finite.
pub open spec fn uint32(b: u64) -> int {
    if nan(b) || infinite(b) { 0 } else { truncated(b) % 0x1_0000_0000 }
}

/// `ToUint32`.
pub fn to_uint32(b: u64) -> (r: u32)
    ensures
        r == uint32(b),
{
    if is_nan(b) || is_infinite(b) {
        return 0;
    }
    let low = low32(b);
    if b >= SIGN && low != 0 {
        proof {
            let t = (scaled(b) / pow2(1074)) as int;
            assert((-t) % 0x1_0000_0000 == 0x1_0000_0000 - t % 0x1_0000_0000) by (nonlinear_arith)
                requires
                    t % 0x1_0000_0000 != 0,
            ;
        }
        (0x1_0000_0000u64 - low as u64) as u32
    } else {
        proof {
            let t = (scaled(b) / pow2(1074)) as int;
            assert(t % 0x1_0000_0000 == 0 ==> (-t) % 0x1_0000_0000 == 0) by (nonlinear_arith);
        }
        low
    }
}

/// `ToInt32`: congruent to the integer part modulo two to the power 32, in the
/// range of the signed 32-bit integers.
pub open spec fn int32(b: u64) -> int {
    if uint32(b) >= 0x8000_0000 { uint32(b) - 0x1_0000_0000 } else { uint32(b) }
}

/// `ToInt32`.
pub fn to_int32(b: u64) -> (r: i32)
    ensures
        r == int32(b),
{
    let u = to_uint32(b);
    if u >= 0x8000_0000 {
        (u as i64 - 0x1_0000_0000) as i32
    } else {
        u as i32
    }
}

/// The pattern of the integer `n` times two to the power `e - 1075`, for an `n`
/// below two to the power 53.
pub open spec fn normal_pattern(n: nat, e: nat) -> nat
    decreases e,
{
    if n >= HIDDEN || e == 0 {
        (e * HIDDEN + n - HIDDEN) as nat
    } else {
        normal_pattern(2 * n, (e - 1) as nat)
    }
}

/// How many low bits of `n` lie beyond the 53 that a double keeps.
pub open spec fn excess_bits(n: nat) -> nat
    decreases n,
{
    if n < 2 * HIDDEN { 0 } else { 1 + excess_bits(n / 2) }
}

/// The pattern of the double nearest to `n`, with ties to the even neighbour.
pub open spec fn double_of(n: nat) -> nat {
    if n == 0 {
        0
    } else if n < 2 * HIDDEN {
        normal_pattern(n, 1075)
    } else {
        let k = excess_bits(n);
        let kept = n / pow2(k);
        let rest = n % pow2(k);
        let up = if 2 * rest > pow2(k) || (2 * rest == pow2(k) && kept % 2 == 1) { 1nat } else { 0nat };
        ((1075 + k) * HIDDEN + kept - HIDDEN + up) as nat
    }
}

proof fn lemma_excess(n: nat)
    requires
        n <= u64::MAX,
    ensures
        excess_bits(n) <= 11,
        n >= 2 * HIDDEN ==> HIDDEN <= n / pow2(excess_bits(n)) < 2 * HIDDEN,
    decreases n,
{
    lemma2_to64();
    lemma2_to64_rest();
    lemma_excess_at(n, 11);
    let k = excess_bits(n);
    lemma_pow2_pos(k);
    if n >= 2 * HIDDEN {
        lemma_excess_range(n);
    }
}

proof fn lemma_excess_at(n: nat, j: nat)
    requires
        n < 2 * HIDDEN * pow2(j),
        j <= 11,
    ensures
        excess_bits(n) <= j,
    decreases n,
{
    lemma2_to64();
    if n >= 2 * HIDDEN {
        if j == 0 {
            assert(2 * HIDDEN * pow2(0) == 2 * HIDDEN);
        }
        lemma_pow2_adds(1, (j - 1) as nat);
        let p = pow2((j - 1) as nat);
        assert(n / 2 < 2 * HIDDEN * p) by (nonlinear_arith)
            requires
                n < 2 * HIDDEN * (2 * p),
        ;
        lemma_excess_at(n / 2, (j - 1) as nat);
    }
}

proof fn lemma_excess_range(n: nat)
    requires
        n >= HIDDEN,
    ensures
        HIDDEN <= n / pow2(excess_bits(n)) < 2 * HIDDEN,
    decreases n,
{
    lemma2_to64();
    if n >= 2 * HIDDEN {
        let k = excess_bits(n / 2);
        lemma_excess_range(n / 2);
        lemma_pow2_pos(k);
        lemma_pow2_adds(1, k);
        lemma_div_denominator(n as int, 2, pow2(k) as int);
    } else {
        assert(n / pow2(0) == n) by (nonlinear_arith)
            requires
                pow2(0) == 1,
        ;
    }
}

/// Integers below two to the power 53 are represented exactly.
pub proof fn lemma_exact_integer(n: nat)
    requires
        n < 2 * HIDDEN,
    ensures
        double_of(n) < INFINITY,
        scaled(double_of(n) as u64) == n * pow2(1074),
{
    if n > 0 {
        lemma2_to64();
        lemma2_to64_rest();
        lemma_pow2_strictly_increases(63, 75);
        assert(n * pow2(75) >= HIDDEN) by (nonlinear_arith)
            requires
                n >= 1,
                pow2(75) >= HIDDEN,
        ;
        lemma_normal(n, 1075);
    }
}

proof fn lemma_normal(n: nat, e: nat)
    requires
        0 < n < 2 * HIDDEN,
        1000 <= e <= 1075,
        n * pow2((e - 1000) as nat) >= HIDDEN,
    ensures
        1000 * HIDDEN <= normal_pattern(n, e) < (e + 1) * HIDDEN,
        scaled(normal_pattern(n, e) as u64) == n * pow2((e - 1) as nat),
    decreases e,
{
    lemma2_to64();
    if n >= HIDDEN {
        let p = (e * HIDDEN + n - HIDDEN) as nat;
        assert(p / HIDDEN as nat == e && p % HIDDEN as nat == n - HIDDEN) by (nonlinear_arith)
            requires
                p == e * HIDDEN + n - HIDDEN,
                HIDDEN <= n < 2 * HIDDEN,
                HIDDEN == 0x10_0000_0000_0000u64,
        ;
        assert(p < SIGN) by (nonlinear_arith)
            requires
                p == e * HIDDEN + n - HIDDEN,
                e <= 1075,
                n < 2 * HIDDEN,
                HIDDEN == 0x10_0000_0000_0000u64,
                SIGN == 0x8000_0000_0000_0000u64,
        ;
    } else {
        if e == 1000 {
            assert(n * pow2(0) == n) by (nonlinear_arith)
                requires
                    pow2(0) == 1,
            ;
        }
        lemma_pow2_adds(1, (e - 1001) as nat);
        lemma_pow2_adds(1, (e - 2) as nat);
        let q = pow2((e - 1001) as nat);
        let q2 = pow2((e - 2) as nat);
        assert(n * (2 * q) == (2 * n) * q) by (nonlinear_arith);
        assert(n * (2 * q2) == (2 * n) * q2) by (nonlinear_arith);
        lemma_normal(2 * n, (e - 1) as nat);
    }
}

/// The double nearest to `n`.
pub fn from_u64(n: u64) -> (r: u64)
    ensures
        r == double_of(n as nat),
        !nan(r),
        !negative(r),
{
    if n == 0 {
        return 0;
    }
    proof {
        lemma2_to64();
        lemma2_to64_rest();
    }
    if n < 2 * HIDDEN {
        let mut m: u64 = n;
        let mut e: u64 = 1075;
        proof {
            assert(n * pow2(63) >= HIDDEN) by (nonlinear_arith)
                requires
                    n >= 1,
                    pow2(63) >= HIDDEN,
            ;
            lemma_pow2_strictly_increases(63, 75);
            assert(n * pow2(75) >= HIDDEN) by (nonlinear_arith)
                requires
                    n >= 1,
                    pow2(75) >= HIDDEN,
            ;
            lemma_normal(n as nat, 1075);
            lemma_exact_integer(n as nat);
        }
        while m < HIDDEN
            invariant
                0 < m < 2 * HIDDEN,
                1000 <= e <= 1075,
                m * pow2((e - 1000) as nat) >= HIDDEN,
                normal_pattern(m as nat, e as nat) == normal_pattern(n as nat, 1075),
            decreases e,
        {
            proof {
                lemma2_to64();
                if e == 1000 {
                    assert(m * pow2(0) == m) by (nonlinear_arith)
                        requires
                            pow2(0) == 1,
                    ;
                }
                lemma_pow2_adds(1, (e - 1001) as nat);
                let q = pow2((e - 1001) as nat);
                assert(m * (2 * q) == (2 * m) * q) by (nonlinear_arith);
            }
            m = 2 * m;
            e = e - 1;
        }
        assert(e * HIDDEN <= 1075 * HIDDEN) by (nonlinear_arith)
            requires
                e <= 1075,
        ;
        e * HIDDEN + (m - HIDDEN)
    } else {
        let mut k: u64 = 0;
        let mut kept: u64 = n;
        let mut p: u64 = 1;
        proof {
            lemma_excess(n as nat);
        }
        while kept >= 2 * HIDDEN
            invariant
                k <= 11,
                p == pow2(k as nat),
                p <= 2048,
                kept == n / p,
                n >= 2 * HIDDEN,
                excess_bits(n as nat) <= 11,
                excess_bits(n as nat) == k + excess_bits(kept as nat),
            decreases kept,
        {
            proof {
                lemma2_to64();
                lemma_pow2_adds(1, k as nat);
                lemma_div_denominator(n as int, p as int, 2);
                lemma_pow2_strictly_increases(k as nat, 11);
            }
            kept = kept / 2;
            p = 2 * p;
            k = k + 1;
        }
        let rest: u64 = n % p;
        let up: u64 = if 2 * rest > p || (2 * rest == p && kept % 2 == 1) { 1 } else { 0 };
        assert((1075 + k) * HIDDEN <= 1086 * HIDDEN) by (nonlinear_arith)
            requires
                k <= 11,
        ;
        (1075 + k) * HIDDEN + (kept - HIDDEN) + up
    }
}

/// The pattern of a signed 32-bit integer.
pub open spec fn int_pattern(n: int) -> int {
    if n < 0 { double_of((-n) as nat) + SIGN } else { double_of(n as nat) as int }
}

/// The double of a signed 32-bit integer.
pub fn from_i32(n: i32) -> (r: u64)
    ensures
        r == int_pattern(n as int),
        !nan(r),
        signed(r) == n * pow2(1074),
{
    if n < 0 {
        let a: u64 = (-(n as i64)) as u64;
        proof {
            lemma_exact_integer(a as nat);
            assert(n * pow2(1074) == -((-n) * pow2(1074))) by (nonlinear_arith);
        }
        let m = from_u64(a);
        m + SIGN
    } else {
        proof {
            lemma_exact_integer(n as nat);
        }
        from_u64(n as u64)
    }
}

/// Order is irreflexive, total and transitive on the numbers that are not
/// not-a-number, and equality is the absence of order either way.
pub proof fn law_order(a: u64, b: u64, c: u64)
    ensures
        !num_lt(a, a),
        num_lt(a, b) && num_lt(b, c) ==> num_lt(a, c),
        !nan(a) && !nan(b) ==> num_lt(a, b) || num_lt(b, a) || num_eq(a, b),
        num_eq(a, b) ==> !num_lt(a, b) && !num_lt(b, a),
        num_eq(a, b) == num_eq(b, a),
        num_le(a, b) == (num_lt(a, b) || num_eq(a, b)),
{
}

/// The pattern without the fraction of its value: the bits below the units are
/// cleared, the sign stays.
pub open spec fn integral(b: u64) -> u64 {
    let m = magnitude(b);
    let e = m / HIDDEN;
    if e < 1023 {
        (b - m) as u64
    } else if e >= 1075 {
        b
    } else {
        (b - (m as int) % (pow2((1075 - e) as nat) as int)) as u64
    }
}

/// Rounds toward zero.
#[verifier::allow_in_spec]
pub fn trunc(b: u64) -> (r: u64)
    returns
        integral(b),
{
    let m = mag(b);
    let e = m / HIDDEN;
    if e < 1023 {
        b - m
    } else if e >= 1075 {
        b
    } else {
        let k: u64 = 1075 - e;
        proof {
            lemma2_to64();
            lemma2_to64_rest();
            lemma_pow2_pos(k as nat);
            if k < 63 {
                lemma_pow2_strictly_increases(k as nat, 63);
            }
            vstd::bits::lemma_u64_shl_is_mul(1, k);
        }
        let p: u64 = 1u64 << k;
        b - m % p
    }
}

/// Rounding toward zero gives the integer part of a finite number, with its sign.
pub proof fn law_integral(b: u64)
    requires
        !nan(b),
        !infinite(b),
    ensures
        signed(integral(b)) == truncated(b) * pow2(1074),
        negative(integral(b)) == negative(b),
{
    let m = magnitude(b);
    let e = (m / HIDDEN) as nat;
    let f = (m % HIDDEN) as nat;
    let unit = pow2(1074) as int;
    lemma_pow2_pos(1074);
    if e == 0 {
        lemma_small_scaled(f);
        lemma_zero_scaled(integral(b));
        assert(0 * unit == 0) by (nonlinear_arith);
    } else {
        lemma_shift_parts(e, f);
        let sig = (HIDDEN + f) as int;
        if e < 1023 {
            lemma_zero_scaled(integral(b));
            assert(0 * unit == 0) by (nonlinear_arith);
        } else if e >= 1075 {
            let q = pow2((e - 1075) as nat) as int;
            lemma_pow2_adds(1074, (e - 1075) as nat);
            assert(scaled(b) == sig * (unit * q));
            assert(sig * (unit * q) == (sig * q) * unit) by (nonlinear_arith);
            if e == 1075 {
                lemma2_to64();
                assert(pow2(0) == 1);
                assert(sig / 1 == sig);
                assert(sig * 1 == sig);
            }
            assert(scaled(b) / pow2(1074) == sig * q);
            assert((-(sig * q)) * unit == -((sig * q) * unit)) by (nonlinear_arith);
        } else {
            let k = (1075 - e) as nat;
            let p = pow2(k) as int;
            let h = pow2((52 - k) as nat) as int;
            let w = pow2((e - 1) as nat) as int;
            lemma_pow2_pos(k);
            lemma_pow2_adds(k, (52 - k) as nat);
            lemma_pow2_adds((e - 1) as nat, k);
            lemma2_to64();
            lemma2_to64_rest();
            assert(HIDDEN as int == p * h);
            assert(unit == w * p);
            assert(m == e * HIDDEN + f);
            assert(e * (p * h) == p * (e * h)) by (nonlinear_arith);
            vstd::arithmetic::div_mod::lemma_mod_multiples_vanish((e * h) as int, f as int, p);
            assert((m as int) % p == (f as int) % p);
            vstd::arithmetic::div_mod::lemma_mod_multiples_vanish(h, f as int, p);
            assert(sig % p == (f as int) % p);
            let g = (f as int) % p;
            vstd::arithmetic::div_mod::lemma_mod_bound(f as int, p);
            assert(g <= f) by {
                vstd::arithmetic::div_mod::lemma_mod_decreases(f, p as nat);
            }
            let r = integral(b);
            let n = magnitude(r);
            assert(n == e * HIDDEN + (f - g));
            assert(n / HIDDEN == e && n % HIDDEN == f - g) by {
                vstd::arithmetic::div_mod::lemma_fundamental_div_mod_converse(n as int, HIDDEN as int, e as int, (f - g) as int);
            }
            assert(scaled(r) == (sig - g) * w);
            let t = sig / p;
            vstd::arithmetic::div_mod::lemma_fundamental_div_mod(sig, p);
            assert(sig - g == p * t);
            assert((p * t) * w == t * (w * p)) by (nonlinear_arith);
            assert(scaled(b) / pow2(1074) == t);
            assert((-t) * unit == -(t * unit)) by (nonlinear_arith);
        }
    }
}

} // verus!
