//! What decimal notation stands for: the nearest double. And the law that the text of
//! every number reads back as the number.
//!
//! The digits of a double that has no known text come from the host. The law takes them
//! as they come, and asks of them only that they stand for the double.
use vstd::prelude::*;
use vstd::arithmetic::power2::{lemma2_to64, lemma2_to64_rest, lemma_pow2_adds, lemma_pow2_pos, lemma_pow2_strictly_increases, pow2};
use crate::bigint::lemma_decimal_digits;
use crate::number::{
    double_of, infinite, lemma_exact_integer, lemma_magnitude_order, magnitude, nan, negative, scaled, zero, HIDDEN, INFINITY, SIGN,
};
use crate::numtext::{
    at, decimal_literal, digits_end, exact_integer, exponent_value, exponential, law_exponents_read_back, law_numbers_read_back,
    lemma_exponential, lemma_literal_read, lemma_run, lemma_run_is, numeral, printed, with_sign, NumeralView, PrintedView, EXACT,
};
use crate::text::{all_digits, decimal, digits_value};

verus! {

/// The powers of ten.
pub open spec fn ten(n: nat) -> nat
    decreases n,
{
    if n == 0 { 1 } else { 10 * ten((n - 1) as nat) }
}

/// The place where the digits of a literal end, before its exponent.
pub open spec fn mantissa_end(s: Seq<char>) -> int {
    let whole = digits_end(s, 0);
    if at(s, whole, '.') { digits_end(s, whole + 1) } else { whole }
}

/// The digits behind the point of a literal.
pub open spec fn fraction(s: Seq<char>) -> Seq<char> {
    let whole = digits_end(s, 0);
    if at(s, whole, '.') { s.subrange(whole + 1, mantissa_end(s)) } else { Seq::empty() }
}

/// The integer that the digits of a literal spell, without regard to the point.
pub open spec fn coefficient(s: Seq<char>) -> nat {
    digits_value(s.subrange(0, digits_end(s, 0)) + fraction(s))
}

/// The exponent that a literal has, or zero.
pub open spec fn exponent(s: Seq<char>) -> int {
    let k = mantissa_end(s);
    if at(s, k, 'e') || at(s, k, 'E') {
        if at(s, k + 1, '-') {
            -(digits_value(s.subrange(k + 2, s.len() as int)) as int)
        } else if at(s, k + 1, '+') {
            digits_value(s.subrange(k + 2, s.len() as int)) as int
        } else {
            digits_value(s.subrange(k + 1, s.len() as int)) as int
        }
    } else {
        0
    }
}

/// The power of ten by which the coefficient of a literal counts.
pub open spec fn scale(s: Seq<char>) -> int {
    exponent(s) - fraction(s).len()
}

/// The number `c` times ten to the power of `e`, in units of the smallest subnormal and
/// of a negative power of ten.
pub open spec fn decimal_side(c: nat, e: int) -> nat {
    c * ten(if e > 0 { e as nat } else { 0 }) * pow2(1074)
}

/// The value of a pattern in the same units.
pub open spec fn double_side(e: int, p: u64) -> nat {
    scaled(p) * ten(if e < 0 { (-e) as nat } else { 0 })
}

/// The distance of the two.
pub open spec fn distance(c: nat, e: int, p: u64) -> nat {
    let x = decimal_side(c, e);
    let y = double_side(e, p);
    if x <= y { (y - x) as nat } else { (x - y) as nat }
}

/// Whether a pattern is nearer to a decimal number than another: of two that are equally
/// near, the one with an even last bit counts as nearer.
pub open spec fn nearer(c: nat, e: int, m: u64, p: u64) -> bool {
    distance(c, e, m) < distance(c, e, p) || (distance(c, e, m) == distance(c, e, p) && (m == p || m % 2 == 0))
}

/// Whether a decimal number reads as a pattern without a sign: the pattern is the nearest.
/// The infinity stands where the next finite number would, if there were one.
pub open spec fn reads_as(c: nat, e: int, m: u64) -> bool {
    m <= INFINITY && forall|p: u64| p <= INFINITY ==> #[trigger] nearer(c, e, m, p)
}

/// The pattern that a decimal number reads as.
pub open spec fn nearest(c: nat, e: int) -> u64 {
    choose|m: u64| reads_as(c, e, m)
}

/// The number that a numeral stands for, where it is no string of digits of a radix.
pub open spec fn number_value(v: NumeralView) -> u64 {
    match v {
        NumeralView::Known(b) => b,
        NumeralView::Decimal { text, negative } => {
            let m = nearest(coefficient(text), scale(text));
            if negative { (m + SIGN) as u64 } else { m }
        },
        NumeralView::Radix { .. } => 0,
    }
}

/// Whether the host's digits of a magnitude are such as are asked for: a literal that
/// reads as the magnitude, with a small `e` if it has an exponent, which fits 64 bits.
pub open spec fn host_digits(d: Seq<char>, m: u64) -> bool {
    &&& decimal_literal(d)
    &&& !d.contains('E')
    &&& -u64::MAX <= exponent(d) <= u64::MAX
    &&& nearest(coefficient(d), scale(d)) == m
}

/// The text of a number, from the host's digits of its magnitude where they are needed.
pub open spec fn number_text(b: u64, d: Seq<char>) -> Seq<char> {
    match printed(b) {
        PrintedView::Known(t) => t,
        PrintedView::Fixed { negative } => with_sign(d, negative),
        PrintedView::Exponent { negative } => with_sign(exponential(d), negative),
    }
}

proof fn lemma_ten_pos(n: nat)
    ensures
        ten(n) > 0,
    decreases n,
{
    if n > 0 {
        lemma_ten_pos((n - 1) as nat);
    }
}

proof fn lemma_side_order(e: int, a: u64, b: u64)
    requires
        a < b <= INFINITY,
    ensures
        double_side(e, a) < double_side(e, b),
{
    lemma_magnitude_order(a, b);
    let t = ten(if e < 0 { (-e) as nat } else { 0 });
    lemma_ten_pos(if e < 0 { (-e) as nat } else { 0 });
    assert(scaled(a) * t < scaled(b) * t) by (nonlinear_arith)
        requires
            scaled(a) < scaled(b),
            t > 0,
    ;
}

/// Two odd patterns, or two even ones, are never both nearest.
proof fn lemma_between(c: nat, e: int, a: u64, b: u64)
    requires
        a < b <= INFINITY,
        a % 2 == b % 2,
        distance(c, e, a) == distance(c, e, b),
    ensures
        distance(c, e, (a + 1) as u64) < distance(c, e, a),
{
    let m = (a + 1) as u64;
    lemma_side_order(e, a, m);
    lemma_side_order(e, m, b);
}

/// A decimal number reads as one pattern only.
pub proof fn law_read_once(c: nat, e: int, a: u64, b: u64)
    requires
        reads_as(c, e, a),
        reads_as(c, e, b),
    ensures
        a == b,
{
    assert(nearer(c, e, a, b) && nearer(c, e, b, a));
    if a < b {
        lemma_between(c, e, a, b);
        assert(nearer(c, e, a, (a + 1) as u64));
    } else if b < a {
        lemma_between(c, e, b, a);
        assert(nearer(c, e, b, (b + 1) as u64));
    }
}

proof fn lemma_best(c: nat, e: int, p: u64) -> (m: u64)
    requires
        p <= INFINITY,
    ensures
        m <= INFINITY,
        forall|q: u64| q <= INFINITY ==> distance(c, e, m) <= #[trigger] distance(c, e, q),
    decreases distance(c, e, p),
{
    if forall|q: u64| q <= INFINITY ==> distance(c, e, p) <= #[trigger] distance(c, e, q) {
        p
    } else {
        let q = choose|q: u64| q <= INFINITY && #[trigger] distance(c, e, q) < distance(c, e, p);
        lemma_best(c, e, q)
    }
}

/// Every decimal number reads as some pattern.
pub proof fn law_every_decimal_reads(c: nat, e: int)
    ensures
        reads_as(c, e, nearest(c, e)),
{
    let m = lemma_best(c, e, 0);
    if m % 2 == 0 {
        assert forall|p: u64| p <= INFINITY implies #[trigger] nearer(c, e, m, p) by {
            assert(distance(c, e, m) <= distance(c, e, p));
        }
        assert(reads_as(c, e, m));
    } else if exists|p: u64| p <= INFINITY && p != m && #[trigger] distance(c, e, p) == distance(c, e, m) {
        let p = choose|p: u64| p <= INFINITY && p != m && #[trigger] distance(c, e, p) == distance(c, e, m);
        if p % 2 == m % 2 {
            if p < m {
                lemma_between(c, e, p, m);
                assert(distance(c, e, m) <= distance(c, e, (p + 1) as u64));
            } else {
                lemma_between(c, e, m, p);
                assert(distance(c, e, m) <= distance(c, e, (m + 1) as u64));
            }
        }
        assert forall|q: u64| q <= INFINITY implies #[trigger] nearer(c, e, p, q) by {
            assert(distance(c, e, m) <= distance(c, e, q));
        }
        assert(reads_as(c, e, p));
    } else {
        assert forall|p: u64| p <= INFINITY implies #[trigger] nearer(c, e, m, p) by {
            assert(distance(c, e, m) <= distance(c, e, p));
        }
        assert(reads_as(c, e, m));
    }
}

/// An integer that a double holds exactly reads as that double.
proof fn lemma_integer_reads(n: nat)
    requires
        n < 2 * HIDDEN,
    ensures
        reads_as(n, 0, double_of(n) as u64),
        nearest(n, 0) == double_of(n),
{
    lemma_exact_integer(n);
    let m = double_of(n) as u64;
    assert(ten(0) == 1);
    assert(n * 1 * pow2(1074) == n * pow2(1074)) by (nonlinear_arith);
    assert(scaled(m) * 1 == scaled(m));
    assert(distance(n, 0, m) == 0);
    assert forall|p: u64| p <= INFINITY implies #[trigger] nearer(n, 0, m, p) by {
        if p < m {
            lemma_side_order(0, p, m);
        } else if m < p {
            lemma_side_order(0, m, p);
        }
    }
    law_every_decimal_reads(n, 0);
    law_read_once(n, 0, m, nearest(n, 0));
}

proof fn lemma_digits_alone(d: Seq<char>)
    requires
        all_digits(d),
    ensures
        coefficient(d) == digits_value(d),
        scale(d) == 0,
{
    lemma_run_is(d, 0, d.len() as int);
    assert(d.subrange(0, d.len() as int) + Seq::<char>::empty() =~= d);
}

/// The layout of the exponent does not change what a literal stands for.
proof fn lemma_exponential_value(d: Seq<char>)
    requires
        decimal_literal(d),
        !d.contains('E'),
        -u64::MAX <= exponent(d) <= u64::MAX,
    ensures
        coefficient(exponential(d)) == coefficient(d),
        scale(exponential(d)) == scale(d),
{
    let x = exponential(d);
    let whole = digits_end(d, 0);
    let k = mantissa_end(d);
    lemma_exponential(d);
    assert(digits_end(x, 0) == whole);
    assert(mantissa_end(x) == k);
    assert(x.subrange(0, whole) =~= d.subrange(0, whole));
    assert(fraction(x) =~= fraction(d));
    let v = if k < d.len() { exponent_value(d.subrange(k + 1, d.len() as int)) } else { 0 };
    let n = if v < 0 { (-v) as nat } else { v as nat };
    lemma_decimal_digits(n);
    assert(x.subrange(k + 2, x.len() as int) =~= decimal(n));
    assert(exponent(x) == v);
    assert(v == exponent(d)) by {
        if k < d.len() {
            let t = d.subrange(k + 1, d.len() as int);
            if at(d, k + 1, '-') || at(d, k + 1, '+') {
                assert(t.subrange(1, t.len() as int) =~= d.subrange(k + 2, d.len() as int));
                lemma_run(d, k + 2);
                assert(all_digits(t.subrange(1, t.len() as int)));
            } else {
                lemma_run(d, k + 1);
                assert(all_digits(t));
            }
        }
    }
}

/// The text of every number reads back as the number: a not-a-number as one, both zeros
/// as zero, and every other number as itself, whatever digits the host has for it, if
/// they stand for it.
pub proof fn law_every_number_reads_back(b: u64, d: Seq<char>)
    requires
        !(printed(b) is Known) ==> host_digits(d, magnitude(b)),
    ensures
        nan(b) ==> nan(number_value(numeral(number_text(b, d)))),
        zero(b) ==> number_value(numeral(number_text(b, d))) == 0,
        !nan(b) && !zero(b) ==> number_value(numeral(number_text(b, d))) == b,
{
    law_numbers_read_back(b);
    let minus = negative(b);
    match printed(b) {
        PrintedView::Known(_) => {},
        PrintedView::Fixed { .. } => {
            lemma_literal_read(d, minus);
            if all_digits(d) && digits_value(d) < EXACT {
                lemma_digits_alone(d);
                lemma_integer_reads(digits_value(d));
                lemma_exact_integer(digits_value(d));
            }
        },
        PrintedView::Exponent { .. } => {
            law_exponents_read_back(d, minus);
            lemma_exponential_value(d);
        },
    }
}

/// The number of digits that count in an integer: without the zeros at its end.
pub open spec fn significance(c: nat) -> nat
    decreases c,
{
    if c == 0 {
        0
    } else if c % 10 == 0 {
        significance(c / 10)
    } else {
        decimal(c).len()
    }
}

/// The text of a finite number other than zero, without its sign.
pub open spec fn number_digits(b: u64, d: Seq<char>) -> Seq<char> {
    match printed(b) {
        PrintedView::Known(_) => decimal(exact_integer(magnitude(b))->0),
        PrintedView::Fixed { .. } => d,
        PrintedView::Exponent { .. } => exponential(d),
    }
}

/// Whether no decimal number with fewer digits reads as a pattern.
pub open spec fn fewest_digits(c: nat, m: u64) -> bool {
    forall|k: nat, e: int| #[trigger] reads_as(k, e, m) ==> significance(c) <= significance(k)
}

proof fn lemma_longer(a: nat, b: nat)
    requires
        a <= b,
    ensures
        decimal(a).len() <= decimal(b).len(),
    decreases b,
{
    if a >= 10 {
        lemma_longer(a / 10, b / 10);
    }
}

proof fn lemma_significance_bound(n: nat)
    ensures
        significance(n) <= decimal(n).len(),
    decreases n,
{
    if n > 0 && n % 10 == 0 {
        lemma_significance_bound(n / 10);
    }
}

proof fn lemma_significance_times(c: nat, k: nat)
    requires
        c > 0,
    ensures
        significance(c * ten(k)) == significance(c),
    decreases k,
{
    if k > 0 {
        let t = ten((k - 1) as nat);
        lemma_significance_times(c, (k - 1) as nat);
        lemma_ten_pos((k - 1) as nat);
        assert(c * (10 * t) == 10 * (c * t)) by (nonlinear_arith);
        assert(c * t > 0) by (nonlinear_arith)
            requires
                c > 0,
                t > 0,
        ;
    } else {
        assert(c * 1 == c);
    }
}

/// The gaps around a pattern that is no subnormal are small beside its value.
proof fn lemma_gap(m: u64)
    requires
        HIDDEN <= m < INFINITY,
    ensures
        scaled((m - 1) as u64) < scaled(m) < scaled((m + 1) as u64),
        (scaled((m + 1) as u64) - scaled(m)) * HIDDEN <= scaled(m),
        (scaled(m) - scaled((m - 1) as u64)) * HIDDEN <= scaled(m),
{
    lemma2_to64();
    lemma_magnitude_order(m, (m + 1) as u64);
    lemma_magnitude_order((m - 1) as u64, m);
    let e = (m / HIDDEN) as nat;
    let f = (m % HIDDEN) as nat;
    let g = pow2((e - 1) as nat);
    lemma_pow2_pos((e - 1) as nat);
    assert(scaled(m) == (HIDDEN + f) as nat * g);
    // Above.
    if f + 1 < HIDDEN {
        assert((m + 1) / HIDDEN as int == e && (m + 1) % HIDDEN as int == f + 1);
        assert((HIDDEN + f + 1) * g == (HIDDEN + f) * g + g) by (nonlinear_arith);
    } else {
        assert((m + 1) / HIDDEN as int == e + 1 && (m + 1) % HIDDEN as int == 0);
        lemma_pow2_adds(1, (e - 1) as nat);
        assert(HIDDEN * (2 * g) == (HIDDEN + f) * g + g) by (nonlinear_arith)
            requires
                f + 1 == HIDDEN,
        ;
    }
    assert(scaled((m + 1) as u64) == scaled(m) + g);
    // Below.
    if f > 0 {
        assert((m - 1) / HIDDEN as int == e && (m - 1) % HIDDEN as int == f - 1);
        assert((HIDDEN + f - 1) * g == (HIDDEN + f) * g - g) by (nonlinear_arith);
    } else {
        assert((m - 1) / HIDDEN as int == e - 1 && (m - 1) % HIDDEN as int == HIDDEN - 1);
        if e > 1 {
            let h = pow2((e - 2) as nat);
            lemma_pow2_adds(1, (e - 2) as nat);
            assert(scaled((m - 1) as u64) == (HIDDEN + HIDDEN - 1) as nat * h);
            assert((HIDDEN + HIDDEN - 1) * h == HIDDEN * (2 * h) - h) by (nonlinear_arith);
            assert(scaled(m) == HIDDEN * (2 * h));
        } else {
            assert(g == 1);
            assert(scaled((m - 1) as u64) == HIDDEN - 1);
            assert(scaled(m) == HIDDEN * 1);
        }
    }
    assert(scaled(m) - scaled((m - 1) as u64) <= g);
    assert(g * HIDDEN <= (HIDDEN + f) * g) by (nonlinear_arith);
    let low = scaled(m) - scaled((m - 1) as u64);
    assert(low * HIDDEN <= g * HIDDEN) by (nonlinear_arith)
        requires
            0 <= low <= g,
    ;
}

/// Whether two numbers differ by no more than half a gap of the second.
spec fn close(a: nat, t: nat) -> bool {
    (if a <= t { t - a } else { a - t }) * (2 * HIDDEN) <= t
}

proof fn lemma_reads_close(n: nat, c: nat, e: int)
    requires
        0 < n < EXACT,
        reads_as(c, e, double_of(n) as u64),
    ensures
        close(c * ten(if e > 0 { e as nat } else { 0 }), n * ten(if e < 0 { (-e) as nat } else { 0 })),
{
    lemma_exact_integer(n);
    lemma2_to64();
    lemma2_to64_rest();
    let m = double_of(n) as u64;
    let unit = pow2(1074);
    lemma_pow2_pos(1074);
    // The pattern of an integer is no subnormal.
    assert(HIDDEN <= m) by {
        lemma_magnitude_order(m, HIDDEN);
        assert(HIDDEN / HIDDEN == 1 && HIDDEN % HIDDEN == 0);
        assert(scaled(HIDDEN) == HIDDEN * pow2(0));
        lemma_pow2_strictly_increases(52, 1074);
        assert(n * unit >= unit) by (nonlinear_arith)
            requires
                n >= 1,
        ;
    }
    lemma_gap(m);
    let t = ten(if e < 0 { (-e) as nat } else { 0 });
    let a = c * ten(if e > 0 { e as nat } else { 0 });
    let x = a * unit;
    let y = scaled(m) * t;
    let up = scaled((m + 1) as u64) * t;
    let down = scaled((m - 1) as u64) * t;
    assert(nearer(c, e, m, (m + 1) as u64));
    assert(nearer(c, e, m, (m - 1) as u64));
    lemma_side_order(e, m, (m + 1) as u64);
    lemma_side_order(e, (m - 1) as u64, m);
    assert(down < y < up);
    let g = (scaled((m + 1) as u64) - scaled(m)) as nat;
    let l = (scaled(m) - scaled((m - 1) as u64)) as nat;
    assert(up - y == g * t) by (nonlinear_arith)
        requires
            up == scaled((m + 1) as u64) * t,
            y == scaled(m) * t,
            g == scaled((m + 1) as u64) - scaled(m),
    ;
    assert(y - down == l * t) by (nonlinear_arith)
        requires
            down == scaled((m - 1) as u64) * t,
            y == scaled(m) * t,
            l == scaled(m) - scaled((m - 1) as u64),
    ;
    let off = if x <= y { (y - x) as nat } else { (x - y) as nat };
    assert(2 * off <= if x <= y { l * t } else { g * t });
    assert(g * t * HIDDEN <= y && l * t * HIDDEN <= y) by (nonlinear_arith)
        requires
            g * HIDDEN <= scaled(m),
            l * HIDDEN <= scaled(m),
            y == scaled(m) * t,
            t >= 0,
    ;
    assert(off * (2 * HIDDEN) <= y) by (nonlinear_arith)
        requires
            2 * off <= g * t || 2 * off <= l * t,
            g * t * HIDDEN <= y,
            l * t * HIDDEN <= y,
    ;
    // In units of one.
    let w = n * t;
    assert(y == w * unit) by (nonlinear_arith)
        requires
            y == scaled(m) * t,
            scaled(m) == n * unit,
            w == n * t,
    ;
    let diff = if a <= w { (w - a) as nat } else { (a - w) as nat };
    assert(off == diff * unit) by (nonlinear_arith)
        requires
            x == a * unit,
            y == w * unit,
            unit > 0,
            off == (if x <= y { y - x } else { x - y }),
            diff == (if a <= w { w - a } else { a - w }),
    ;
    assert(diff * (2 * HIDDEN) <= w) by (nonlinear_arith)
        requires
            diff * unit * (2 * HIDDEN) <= w * unit,
            unit > 0,
    ;
}

proof fn lemma_close_digits(n: nat, c: nat, e: int)
    requires
        0 < n < EXACT,
        close(c * ten(if e > 0 { e as nat } else { 0 }), n * ten(if e < 0 { (-e) as nat } else { 0 })),
    ensures
        significance(n) <= significance(c),
    decreases (if e < 0 { -e } else { 0 }),
{
    if e >= 0 {
        assert(n * 1 == n);
        let a = c * ten(if e > 0 { e as nat } else { 0 });
        assert(a == n) by (nonlinear_arith)
            requires
                (if a <= n { n - a } else { a - n }) * (2 * HIDDEN) <= n,
                n < EXACT,
        ;
        assert(c > 0) by {
            if c == 0 {
                assert(0 * ten(if e > 0 { e as nat } else { 0 }) == 0) by (nonlinear_arith);
            }
        }
        lemma_significance_times(c, if e > 0 { e as nat } else { 0 });
    } else {
        let t = ten((-e) as nat);
        let s = ten((-e - 1) as nat);
        let w = n * t;
        let v = n * s;
        lemma_ten_pos((-e - 1) as nat);
        assert(c * 1 == c);
        assert(w == 10 * v) by (nonlinear_arith)
            requires
                w == n * t,
                v == n * s,
                t == 10 * s,
        ;
        assert(v > 0) by (nonlinear_arith)
            requires
                v == n * s,
                n > 0,
                s > 0,
        ;
        if c % 10 == 0 {
            let k = c / 10;
            assert(k * 1 == k);
            let far = if c <= w { (w - c) as nat } else { (c - w) as nat };
            let near = if k <= v { (v - k) as nat } else { (k - v) as nat };
            assert(far == 10 * near);
            assert(near * (2 * HIDDEN) <= v) by (nonlinear_arith)
                requires
                    (10 * near) * (2 * HIDDEN) <= 10 * v,
            ;
            if e + 1 == 0 {
                assert(n * 1 == n);
            }
            lemma_close_digits(n, k, e + 1);
            assert(c > 0);
        } else {
            assert(c != w);
            let far = if c <= w { (w - c) as nat } else { (c - w) as nat };
            assert(far * (2 * HIDDEN) <= w);
            assert(c >= EXACT) by (nonlinear_arith)
                requires
                    far == (if c <= w { w - c } else { c - w }),
                    far >= 1,
                    far * (2 * HIDDEN) <= w,
                    HIDDEN == 0x10_0000_0000_0000u64,
                    EXACT == 1_000_000_000_000_000u64,
            ;
            lemma_longer(n, c);
            lemma_significance_bound(n);
        }
    }
}

/// The text of a finite number has no more digits than a decimal number needs to stand
/// for it, if that holds of the digits that the host has for it.
pub proof fn law_text_is_shortest(b: u64, d: Seq<char>)
    requires
        !nan(b) && !infinite(b) && !zero(b),
        !(printed(b) is Known) ==> host_digits(d, magnitude(b)) && fewest_digits(coefficient(d), magnitude(b)),
    ensures
        number_text(b, d) == with_sign(number_digits(b, d), negative(b)),
        fewest_digits(coefficient(number_digits(b, d)), magnitude(b)),
{
    match printed(b) {
        PrintedView::Known(_) => {
            let n = exact_integer(magnitude(b))->0;
            lemma_decimal_digits(n);
            lemma_digits_alone(decimal(n));
            assert forall|k: nat, e: int| #[trigger] reads_as(k, e, magnitude(b)) implies significance(n) <= significance(k) by {
                lemma_reads_close(n, k, e);
                lemma_close_digits(n, k, e);
            }
        },
        PrintedView::Fixed { .. } => {},
        PrintedView::Exponent { .. } => {
            lemma_exponential_value(d);
        },
    }
}

} // verus!
