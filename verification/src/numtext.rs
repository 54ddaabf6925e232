//! Numbers and their texts.
//!
//! What takes no rounding is decided here; what does is left to the host, named
//! exactly: which digits to read in which notation, and which layout to print.
use vstd::prelude::*;
use vstd::arithmetic::power2::{lemma2_to64, lemma2_to64_rest, lemma_pow2_adds, lemma_pow2_pos, lemma_pow2_strictly_increases, pow2};
use crate::number::{
    double_of, from_u64, infinite, is_infinite, is_nan, is_zero, lemma_exact_integer, lemma_magnitude_order, magnitude, nan, negated,
    negative, saturated, to_u64, zero, HIDDEN, INFINITY, NAN, NEG_INFINITY, SIGN,
};
use crate::bigint::lemma_decimal_digits;
use crate::scan::{is_text, slice, trim, trimmed, white};
use crate::text::{
    all_digits, chars_of, decimal, decimal_text, digits_value, joined, number_of, owned, parse_number, string_from,
};

verus! {

/// The pattern of `1e21`, from which on numbers are printed with an exponent.
pub const LARGE: u64 = 0x444b_1ae4_d6e2_ef50;
/// The pattern of `1e-6`, below which numbers are printed with an exponent.
pub const SMALL: u64 = 0x3eb0_c6f7_a0b5_ed8d;
/// Integers below this are printed digit by digit.
pub const EXACT: u64 = 1_000_000_000_000_000;

/// Where the number of a text comes from.
pub enum Numeral {
    /// It is known.
    Known(u64),
    /// The host reads decimal notation; the sign changes where `negative` holds.
    Decimal { text: String, negative: bool },
    /// The host reads digits of a radix, one by one.
    Radix { text: String, radix: u32 },
}

/// The contents of a [`Numeral`].
#[verifier::ext_equal]
pub enum NumeralView {
    Known(u64),
    Decimal { text: Seq<char>, negative: bool },
    Radix { text: Seq<char>, radix: u32 },
}

impl Numeral {
    /// The contents.
    pub open spec fn view(&self) -> NumeralView {
        match *self {
            Numeral::Known(b) => NumeralView::Known(b),
            Numeral::Decimal { text, negative } => NumeralView::Decimal { text: text@, negative },
            Numeral::Radix { text, radix } => NumeralView::Radix { text: text@, radix },
        }
    }
}

/// The end of the run of decimal digits that starts at `i`.
pub open spec fn digits_end(s: Seq<char>, i: int) -> int
    decreases s.len() - i,
{
    if 0 <= i < s.len() && '0' <= s[i] <= '9' {
        digits_end(s, i + 1)
    } else {
        i
    }
}

/// Whether `c` stands at `i`.
pub open spec fn at(s: Seq<char>, i: int, c: char) -> bool {
    0 <= i < s.len() && s[i] == c
}

/// Whether a text is an unsigned decimal literal: digits, an optional fraction
/// and an optional exponent, with a digit before the exponent.
pub open spec fn decimal_literal(s: Seq<char>) -> bool {
    let whole = digits_end(s, 0);
    let dot = at(s, whole, '.');
    let frac = if dot { digits_end(s, whole + 1) } else { whole };
    let digits = whole > 0 || (dot && frac > whole + 1);
    let exp = at(s, frac, 'e') || at(s, frac, 'E');
    let sign = if at(s, frac + 1, '+') || at(s, frac + 1, '-') { frac + 2 } else { frac + 1 };
    digits && if exp { digits_end(s, sign) > sign && digits_end(s, sign) == s.len() } else { frac == s.len() }
}

/// The radix of a `0x`, `0o` or `0b` prefix.
pub open spec fn radix_of(s: Seq<char>) -> Option<u32> {
    if s.len() >= 2 && s[0] == '0' {
        if s[1] == 'x' || s[1] == 'X' {
            Some(16)
        } else if s[1] == 'o' || s[1] == 'O' {
            Some(8)
        } else if s[1] == 'b' || s[1] == 'B' {
            Some(2)
        } else {
            None
        }
    } else {
        None
    }
}

/// Whether a character is a digit of a radix up to 16.
pub open spec fn radix_digit(c: char, radix: u32) -> bool {
    ('0' <= c <= '9' && (c as u32 - '0' as u32) < radix)
    || ('a' <= c <= 'f' && (c as u32 - 'a' as u32) + 10 < radix)
    || ('A' <= c <= 'F' && (c as u32 - 'A' as u32) + 10 < radix)
}

/// Whether a text is a non-empty string of digits of a radix.
pub open spec fn radix_digits(s: Seq<char>, radix: u32) -> bool {
    s.len() > 0 && forall|i: int| 0 <= i < s.len() ==> radix_digit(#[trigger] s[i], radix)
}

/// The pattern of an exact integer with a sign.
pub open spec fn signed_pattern(n: nat, negative: bool) -> u64 {
    if negative { (double_of(n) + SIGN) as u64 } else { double_of(n) as u64 }
}

/// The number of an unsigned decimal literal with a sign before it.
pub open spec fn decimal_numeral(body: Seq<char>, negative: bool) -> NumeralView {
    if all_digits(body) && digits_value(body) < EXACT {
        NumeralView::Known(signed_pattern(digits_value(body), negative))
    } else if decimal_literal(body) {
        NumeralView::Decimal { text: body, negative }
    } else {
        NumeralView::Known(NAN)
    }
}

/// The number of a text: white space around it is ignored, the empty text is
/// zero, and what is not a complete literal is not a number.
pub open spec fn numeral(s: Seq<char>) -> NumeralView {
    let t = trimmed(s);
    if t.len() == 0 {
        NumeralView::Known(0)
    } else {
        let signed = t[0] == '+' || t[0] == '-';
        let minus = t[0] == '-';
        let body = if signed { t.subrange(1, t.len() as int) } else { t };
        if body.len() == 0 {
            NumeralView::Known(NAN)
        } else if body == "Infinity"@ {
            NumeralView::Known(if minus { NEG_INFINITY } else { INFINITY })
        } else {
            match radix_of(body) {
                Some(radix) => {
                    let digits = body.subrange(2, body.len() as int);
                    if !signed && radix_digits(digits, radix) {
                        NumeralView::Radix { text: digits, radix }
                    } else {
                        NumeralView::Known(NAN)
                    }
                },
                None => decimal_numeral(body, minus),
            }
        }
    }
}

fn run_end(v: &Vec<char>, i: usize) -> (r: usize)
    requires
        i <= v@.len(),
    ensures
        r == digits_end(v@, i as int),
        i <= r <= v@.len(),
{
    let mut k: usize = i;
    while k < v.len() && '0' <= v[k] && v[k] <= '9'
        invariant
            i <= k <= v@.len(),
            digits_end(v@, i as int) == digits_end(v@, k as int),
        decreases v@.len() - k,
    {
        k += 1;
    }
    k
}

fn is_at(v: &Vec<char>, i: usize, c: char) -> (r: bool)
    ensures
        r == at(v@, i as int, c),
{
    i < v.len() && v[i] == c
}

fn is_decimal_literal(v: &Vec<char>) -> (r: bool)
    ensures
        r == decimal_literal(v@),
{
    let n = v.len();
    let whole = run_end(v, 0);
    let dot = is_at(v, whole, '.');
    let frac = if dot { run_end(v, whole + 1) } else { whole };
    if !(whole > 0 || (dot && frac > whole + 1)) {
        return false;
    }
    if is_at(v, frac, 'e') || is_at(v, frac, 'E') {
        let sign = if is_at(v, frac + 1, '+') || is_at(v, frac + 1, '-') { frac + 2 } else { frac + 1 };
        let end = run_end(v, sign);
        end > sign && end == n
    } else {
        frac == n
    }
}

fn is_radix_digit(c: char, radix: u32) -> (r: bool)
    ensures
        r == radix_digit(c, radix),
{
    ('0' <= c && c <= '9' && (c as u32 - '0' as u32) < radix)
    || ('a' <= c && c <= 'f' && (c as u32 - 'a' as u32) + 10 < radix)
    || ('A' <= c && c <= 'F' && (c as u32 - 'A' as u32) + 10 < radix)
}

fn all_radix_digits(v: &Vec<char>, radix: u32) -> (r: bool)
    ensures
        r == radix_digits(v@, radix),
{
    let mut i: usize = 0;
    while i < v.len()
        invariant
            i <= v@.len(),
            forall|j: int| 0 <= j < i ==> radix_digit(#[trigger] v@[j], radix),
        decreases v@.len() - i,
    {
        if !is_radix_digit(v[i], radix) {
            assert(!radix_digit(v@[i as int], radix));
            return false;
        }
        i += 1;
    }
    v.len() > 0
}

/// Reads an unsigned decimal literal with a sign before it.
pub fn read_decimal(body: &Vec<char>, minus: bool) -> (r: Numeral)
    ensures
        r@ == decimal_numeral(body@, minus),
{
    let text = string_from(body, 0, body.len());
    assert(text@ =~= body@);
    if body.len() > 0 && body[0] != '+' {
        match parse_number(text.as_str()) {
            Some(n) => if n < EXACT {
                let b = from_u64(n);
                proof {
                    crate::number::lemma_exact_integer(n as nat);
                }
                return Numeral::Known(if minus { negated(b) } else { b });
            },
            None => {},
        }
    }
    if is_decimal_literal(body) {
        Numeral::Decimal { text, negative: minus }
    } else {
        Numeral::Known(NAN)
    }
}

/// Reads the text of a number.
pub fn str_to_number_value(s: &str) -> (r: Numeral)
    ensures
        r@ == numeral(s@),
{
    let all = chars_of(s);
    let t = trim(&all);
    if t.len() == 0 {
        return Numeral::Known(0);
    }
    let signed = t[0] == '+' || t[0] == '-';
    let minus = t[0] == '-';
    let body = if signed { slice(&t, 1, t.len()) } else { t };
    if body.len() == 0 {
        return Numeral::Known(NAN);
    }
    if is_text(&body, "Infinity") {
        return Numeral::Known(if minus { NEG_INFINITY } else { INFINITY });
    }
    let radix: Option<u32> = if body.len() >= 2 && body[0] == '0' {
        if body[1] == 'x' || body[1] == 'X' {
            Some(16)
        } else if body[1] == 'o' || body[1] == 'O' {
            Some(8)
        } else if body[1] == 'b' || body[1] == 'B' {
            Some(2)
        } else {
            None
        }
    } else {
        None
    };
    match radix {
        Some(x) => {
            let digits = slice(&body, 2, body.len());
            if !signed && all_radix_digits(&digits, x) {
                let text = string_from(&digits, 0, digits.len());
                assert(text@ =~= digits@);
                Numeral::Radix { text, radix: x }
            } else {
                Numeral::Known(NAN)
            }
        },
        None => read_decimal(&body, minus),
    }
}

/// Where the text of a number comes from.
pub enum Printed {
    /// It is known.
    Known(String),
    /// The host prints the magnitude in positional notation.
    Fixed { negative: bool },
    /// The host prints the magnitude with an exponent.
    Exponent { negative: bool },
}

/// The contents of a [`Printed`].
#[verifier::ext_equal]
pub enum PrintedView {
    Known(Seq<char>),
    Fixed { negative: bool },
    Exponent { negative: bool },
}

impl Printed {
    /// The contents.
    pub open spec fn view(&self) -> PrintedView {
        match *self {
            Printed::Known(t) => PrintedView::Known(t@),
            Printed::Fixed { negative } => PrintedView::Fixed { negative },
            Printed::Exponent { negative } => PrintedView::Exponent { negative },
        }
    }
}

/// A text with a minus sign before it, where wanted.
pub open spec fn with_sign(t: Seq<char>, negative: bool) -> Seq<char> {
    if negative { "-"@ + t } else { t }
}

/// The integer below [`EXACT`] that a magnitude stands for, if it does.
pub open spec fn exact_integer(m: u64) -> Option<nat> {
    let n = saturated(m, u64::MAX as nat);
    if n < EXACT && double_of(n) == m { Some(n) } else { None }
}

/// How a number is printed: the special values and the small integers as they
/// are, with an exponent from `1e21` on and below `1e-6`, and in positional
/// notation between.
pub open spec fn printed(b: u64) -> PrintedView {
    let m = magnitude(b);
    if nan(b) {
        PrintedView::Known("NaN"@)
    } else if zero(b) {
        PrintedView::Known("0"@)
    } else if infinite(b) {
        PrintedView::Known(with_sign("Infinity"@, negative(b)))
    } else if exact_integer(m) is Some {
        PrintedView::Known(with_sign(decimal(exact_integer(m)->0), negative(b)))
    } else if m >= LARGE || m < SMALL {
        PrintedView::Exponent { negative: negative(b) }
    } else {
        PrintedView::Fixed { negative: negative(b) }
    }
}

/// A text with a minus sign before it, where wanted.
pub fn sign_text(t: &str, negative: bool) -> (r: String)
    ensures
        r@ == with_sign(t@, negative),
{
    if negative { joined("-", t) } else { owned(t) }
}

/// How a number is printed.
pub fn format_number(b: u64) -> (r: Printed)
    ensures
        r@ == printed(b),
{
    if is_nan(b) {
        return Printed::Known(owned("NaN"));
    }
    if is_zero(b) {
        return Printed::Known(owned("0"));
    }
    let minus = b >= SIGN;
    let m = if minus { b - SIGN } else { b };
    if is_infinite(b) {
        return Printed::Known(sign_text("Infinity", minus));
    }
    let n = to_u64(m);
    if n < EXACT && from_u64(n) == m {
        return Printed::Known(sign_text(decimal_text(n).as_str(), minus));
    }
    if m >= LARGE || m < SMALL {
        Printed::Exponent { negative: minus }
    } else {
        Printed::Fixed { negative: minus }
    }
}

proof fn lemma_untrimmed(t: Seq<char>)
    requires
        t.len() > 0,
        !white(t[0]),
        !white(t.last()),
    ensures
        trimmed(t) == t,
{
}

/// A number whose text the library knows is what that text reads as: the special values,
/// the zeros as zero, and the integers below [`EXACT`].
pub proof fn law_numbers_read_back(b: u64)
    ensures
        match printed(b) {
            PrintedView::Known(t) => match numeral(t) {
                NumeralView::Known(c) => if nan(b) { nan(c) } else if zero(b) { c == 0 } else { c == b },
                _ => false,
            },
            _ => true,
        },
{
    reveal_strlit("NaN");
    reveal_strlit("0");
    reveal_strlit("-");
    reveal_strlit("Infinity");
    let m = magnitude(b);
    let minus = negative(b);
    if nan(b) {
        let t = "NaN"@;
        lemma_untrimmed(t);
        assert(t[0] == 'N');
        assert(!all_digits(t));
        assert(!decimal_literal(t));
    } else if zero(b) {
        let t = "0"@;
        lemma_untrimmed(t);
        assert(t =~= decimal(0));
        lemma_decimal_digits(0);
    } else if infinite(b) {
        let t = with_sign("Infinity"@, minus);
        assert(t.last() == 'y');
        lemma_untrimmed(t);
        if minus {
            assert(t.subrange(1, t.len() as int) =~= "Infinity"@);
        }
    } else if exact_integer(m) is Some {
        let n = exact_integer(m)->0;
        let d = decimal(n);
        lemma_decimal_digits(n);
        let t = with_sign(d, minus);
        assert(t.last() == d.last());
        assert(t[0] == if minus { '-' } else { d[0] });
        assert('0' <= d[0] <= '9' && '0' <= d.last() <= '9');
        lemma_untrimmed(t);
        if minus {
            assert(t.subrange(1, t.len() as int) =~= d);
        }
        assert(d != "Infinity"@) by {
            assert("Infinity"@[0] == 'I');
        }
        assert(radix_of(d) is None) by {
            if d.len() >= 2 {
                assert('0' <= d[1] <= '9');
            }
        }
    }
}

proof fn lemma_exact_range(m: u64)
    requires
        exact_integer(m) is Some,
        m != 0,
    ensures
        SMALL < m < LARGE,
{
    let n = exact_integer(m)->0;
    lemma_exact_integer(n);
    assert(n > 0);
    assert(magnitude(m) == m);
    lemma2_to64();
    lemma2_to64_rest();
    lemma_pow2_pos(1074);
    let unit = pow2(1074);
    assert(unit <= n * unit < pow2(50) * unit) by (nonlinear_arith)
        requires
            1 <= n < EXACT,
            EXACT <= pow2(50),
            unit > 0,
    ;
    lemma_pow2_adds(50, 1074);
    // The scaled value of `SMALL` is below that of one.
    assert(SMALL / HIDDEN == 1003 && SMALL % HIDDEN < HIDDEN);
    lemma_pow2_pos(1002);
    let small = (HIDDEN + SMALL % HIDDEN) as nat;
    assert(small * pow2(1002) < pow2(53) * pow2(1002)) by (nonlinear_arith)
        requires
            small < pow2(53),
            pow2(1002) > 0,
    ;
    lemma_pow2_adds(53, 1002);
    lemma_pow2_strictly_increases(1055, 1074);
    lemma_magnitude_order(SMALL, m);
    // The scaled value of `LARGE` is above that of every exact integer.
    assert(LARGE / HIDDEN == 1092);
    lemma_pow2_pos(1091);
    let large = (HIDDEN + LARGE % HIDDEN) as nat;
    assert(large * pow2(1091) >= pow2(52) * pow2(1091)) by (nonlinear_arith)
        requires
            large >= pow2(52),
    ;
    lemma_pow2_adds(52, 1091);
    lemma_pow2_strictly_increases(1124, 1143);
    lemma_magnitude_order(m, LARGE);
}

/// A number is printed with an exponent where it is finite, not zero, and not below
/// `1e21` or below `1e-6`, and nowhere else. Both zeros are printed alike.
pub proof fn law_number_layout(b: u64)
    ensures
        printed(b) is Exponent <==> !nan(b) && !infinite(b) && !zero(b) && (magnitude(b) >= LARGE || magnitude(b) < SMALL),
        zero(b) ==> printed(b) == PrintedView::Known("0"@),
{
    if !nan(b) && !infinite(b) && !zero(b) && exact_integer(magnitude(b)) is Some {
        lemma_exact_range(magnitude(b));
    }
}

/// The position of the first `e` from `i` on, or the end.
pub open spec fn exponent_mark(s: Seq<char>, i: int) -> int
    decreases s.len() - i,
{
    if 0 <= i < s.len() && s[i] != 'e' { exponent_mark(s, i + 1) } else { i }
}

/// The exponent that a text spells: an optional sign and digits; a text that
/// spells none counts as zero.
pub open spec fn exponent_value(t: Seq<char>) -> int {
    if t.len() > 0 && t[0] == '-' {
        match number_of(t.subrange(1, t.len() as int)) {
            Some(n) => if t[1] == '+' { 0 } else { -(n as int) },
            None => 0,
        }
    } else {
        match number_of(t) {
            Some(n) => n as int,
            None => 0,
        }
    }
}

/// An exponent as it is printed, always with a sign.
pub open spec fn exponent_text(n: int) -> Seq<char> {
    if n < 0 { "-"@ + decimal((-n) as nat) } else { "+"@ + decimal(n as nat) }
}

/// A magnitude in exponential notation, from the host's text of it.
pub open spec fn exponential(s: Seq<char>) -> Seq<char> {
    let k = exponent_mark(s, 0);
    let exp = if k < s.len() { exponent_value(s.subrange(k + 1, s.len() as int)) } else { 0 };
    s.subrange(0, k) + "e"@ + exponent_text(exp)
}

proof fn lemma_exponent_mark(s: Seq<char>, i: int)
    requires
        0 <= i <= s.len(),
    ensures
        i <= exponent_mark(s, i) <= s.len(),
    decreases s.len() - i,
{
    if i < s.len() && s[i] != 'e' {
        lemma_exponent_mark(s, i + 1);
    }
}

pub(crate) proof fn lemma_run(s: Seq<char>, i: int)
    requires
        0 <= i <= s.len(),
    ensures
        i <= digits_end(s, i) <= s.len(),
        forall|j: int| i <= j < digits_end(s, i) ==> '0' <= #[trigger] s[j] <= '9',
    decreases s.len() - i,
{
    if i < s.len() && '0' <= s[i] <= '9' {
        lemma_run(s, i + 1);
    }
}

pub(crate) proof fn lemma_run_is(s: Seq<char>, i: int, end: int)
    requires
        0 <= i <= end <= s.len(),
        forall|j: int| i <= j < end ==> '0' <= #[trigger] s[j] <= '9',
        end < s.len() ==> !('0' <= s[end] <= '9'),
    ensures
        digits_end(s, i) == end,
    decreases end - i,
{
    if i < end {
        assert('0' <= s[i] <= '9');
        lemma_run_is(s, i + 1, end);
    }
}

proof fn lemma_exponent_mark_is(s: Seq<char>, i: int, end: int)
    requires
        0 <= i <= end <= s.len(),
        forall|j: int| i <= j < end ==> #[trigger] s[j] != 'e',
        end < s.len() ==> s[end] == 'e',
    ensures
        exponent_mark(s, i) == end,
    decreases end - i,
{
    if i < end {
        lemma_exponent_mark_is(s, i + 1, end);
    }
}

proof fn lemma_literal_edges(d: Seq<char>)
    requires
        decimal_literal(d),
    ensures
        d.len() > 0,
        d[0] == '.' || '0' <= d[0] <= '9',
        d.last() == '.' || '0' <= d.last() <= '9',
        radix_of(d) is None,
{
    let whole = digits_end(d, 0);
    lemma_run(d, 0);
    let dot = at(d, whole, '.');
    if dot {
        lemma_run(d, whole + 1);
    }
    let frac = if dot { digits_end(d, whole + 1) } else { whole };
    let sign = if at(d, frac + 1, '+') || at(d, frac + 1, '-') { frac + 2 } else { frac + 1 };
    if at(d, frac, 'e') || at(d, frac, 'E') {
        lemma_run(d, sign);
    }
    if whole > 1 {
        assert('0' <= d[1] <= '9');
    }
}

pub(crate) proof fn lemma_literal_read(d: Seq<char>, minus: bool)
    requires
        decimal_literal(d),
    ensures
        numeral(with_sign(d, minus)) == decimal_numeral(d, minus),
{
    reveal_strlit("-");
    reveal_strlit("Infinity");
    let t = with_sign(d, minus);
    lemma_literal_edges(d);
    assert(t.last() == d.last());
    assert(t[0] == if minus { '-' } else { d[0] });
    lemma_untrimmed(t);
    if minus {
        assert(t.subrange(1, t.len() as int) =~= d);
    }
    assert("Infinity"@[0] == 'I');
}

/// A number that the host prints in positional notation is read back from the same
/// digits, with the same sign.
pub proof fn law_digits_read_back(d: Seq<char>, minus: bool)
    requires
        decimal_literal(d),
        !(all_digits(d) && digits_value(d) < EXACT),
    ensures
        numeral(with_sign(d, minus)) == (NumeralView::Decimal { text: d, negative: minus }),
{
    lemma_literal_read(d, minus);
}

/// The parts of a literal that was laid out: the digits are those of the host's text, and
/// the exponent has a sign.
pub(crate) proof fn lemma_exponential(d: Seq<char>)
    requires
        decimal_literal(d),
        !d.contains('E'),
    ensures
        ({
            let whole = digits_end(d, 0);
            let frac = if at(d, whole, '.') { digits_end(d, whole + 1) } else { whole };
            let v = if frac < d.len() { exponent_value(d.subrange(frac + 1, d.len() as int)) } else { 0 };
            let n = if v < 0 { (-v) as nat } else { v as nat };
            let x = exponential(d);
            &&& 0 <= whole <= frac <= d.len()
            &&& exponent_mark(d, 0) == frac
            &&& x == d.subrange(0, frac) + seq!['e', if v < 0 { '-' } else { '+' }] + decimal(n)
            &&& digits_end(x, 0) == whole
            &&& at(x, whole, '.') == at(d, whole, '.')
            &&& at(d, whole, '.') ==> digits_end(x, whole + 1) == frac
            &&& digits_end(x, frac + 2) == x.len()
            &&& decimal_literal(x)
        }),
{
    reveal_strlit("e");
    reveal_strlit("+");
    reveal_strlit("-");
    let whole = digits_end(d, 0);
    lemma_run(d, 0);
    let dot = at(d, whole, '.');
    if dot {
        lemma_run(d, whole + 1);
    }
    let frac = if dot { digits_end(d, whole + 1) } else { whole };
    assert(!at(d, frac, 'E'));
    lemma_exponent_mark_is(d, 0, frac);
    let x = exponential(d);
    let v = if frac < d.len() { exponent_value(d.subrange(frac + 1, d.len() as int)) } else { 0 };
    let n = if v < 0 { (-v) as nat } else { v as nat };
    lemma_decimal_digits(n);
    assert(x =~= d.subrange(0, frac) + seq!['e', if v < 0 { '-' } else { '+' }] + decimal(n));
    assert(forall|j: int| 0 <= j < frac ==> x[j] == d[j]);
    assert(x[frac] == 'e');
    assert forall|j: int| frac + 2 <= j < x.len() implies '0' <= #[trigger] x[j] <= '9' by {
        assert(x[j] == decimal(n)[j - frac - 2]);
    }
    lemma_run_is(x, 0, whole);
    if dot {
        lemma_run_is(x, whole + 1, frac);
    }
    lemma_run_is(x, frac + 2, x.len() as int);
}

/// A number that the host prints with an exponent is read back, once laid out, as the
/// same text with the same sign.
pub proof fn law_exponents_read_back(d: Seq<char>, minus: bool)
    requires
        decimal_literal(d),
        !d.contains('E'),
    ensures
        numeral(with_sign(exponential(d), minus)) == (NumeralView::Decimal { text: exponential(d), negative: minus }),
{
    lemma_exponential(d);
    let x = exponential(d);
    assert(x[exponent_mark(d, 0)] == 'e');
    assert(!all_digits(x));
    lemma_literal_read(x, minus);
}

/// Renders a magnitude in exponential notation, from the host's text of it.
pub fn exp_format(text: &str) -> (r: String)
    ensures
        r@ == exponential(text@),
{
    let s = chars_of(text);
    let mut k: usize = 0;
    while k < s.len() && s[k] != 'e'
        invariant
            k <= s@.len(),
            exponent_mark(s@, 0) == exponent_mark(s@, k as int),
        decreases s@.len() - k,
    {
        k += 1;
    }
    let mant = string_from(&s, 0, k);
    let mut minus = false;
    let mut n: u64 = 0;
    if k < s.len() {
        let t = slice(&s, k + 1, s.len());
        assert(t@ =~= s@.subrange(k + 1, s@.len() as int));
        if t.len() > 0 && t[0] == '-' {
            let d = slice(&t, 1, t.len());
            let dt = string_from(&d, 0, d.len());
            assert(dt@ =~= t@.subrange(1, t@.len() as int));
            match parse_number(dt.as_str()) {
                Some(x) => {
                    if t[1] != '+' {
                        n = x;
                        minus = x > 0;
                    }
                },
                None => {},
            }
        } else {
            let dt = string_from(&t, 0, t.len());
            assert(dt@ =~= t@);
            match parse_number(dt.as_str()) {
                Some(x) => {
                    n = x;
                },
                None => {},
            }
        }
    }
    let head = joined(mant.as_str(), "e");
    let signed = joined(head.as_str(), if minus { "-" } else { "+" });
    let r = joined(signed.as_str(), decimal_text(n).as_str());
    assert(r@ =~= exponential(text@));
    r
}

/// The number as an integer key, truncated and confined to 64 bits with a sign.
pub open spec fn integer_key(b: u64) -> Seq<char> {
    let m = saturated(magnitude(b), u64::MAX as nat);
    if nan(b) || m == 0 {
        "0"@
    } else if negative(b) {
        "-"@ + decimal(if m > 0x8000_0000_0000_0000 { 0x8000_0000_0000_0000 } else { m })
    } else {
        decimal(if m > 0x7fff_ffff_ffff_ffff { 0x7fff_ffff_ffff_ffff } else { m })
    }
}

/// The number as an integer key.
pub fn integer_key_text(b: u64) -> (r: String)
    ensures
        r@ == integer_key(b),
{
    let minus = b >= SIGN;
    let m = if minus { b - SIGN } else { b };
    let n = to_u64(m);
    if is_nan(b) || n == 0 {
        owned("0")
    } else if minus {
        joined("-", decimal_text(if n > 0x8000_0000_0000_0000 { 0x8000_0000_0000_0000 } else { n }).as_str())
    } else {
        decimal_text(if n > 0x7fff_ffff_ffff_ffff { 0x7fff_ffff_ffff_ffff } else { n })
    }
}

} // verus!
