//! Bit operations, shifts and comparisons of big integers.
use vstd::prelude::*;
use vstd::arithmetic::div_mod::{lemma_fundamental_div_mod_converse, lemma_fundamental_div_mod, lemma_mod_bound};
use vstd::arithmetic::power::{lemma_pow_positive, pow};
use vstd::arithmetic::power2::{lemma_pow2, lemma_pow2_adds, lemma_pow2_strictly_increases, lemma2_to64, pow2};
use crate::bigint::{bits_of, high, limbs_value, magnitude_of, Big, BASE};
use crate::number::{infinite, nan, negative, scaled, signed, HIDDEN, SIGN};

verus! {

/// A bit operation.
#[derive(Clone, Copy, PartialEq, Eq, Structural, Debug)]
pub enum BitOp {
    And,
    Or,
    Xor,
}

/// The operation on single bits.
pub open spec fn bit_of(op: BitOp, a: bool, b: bool) -> bool {
    match op {
        BitOp::And => a && b,
        BitOp::Or => a || b,
        BitOp::Xor => a != b,
    }
}

/// How far a number is from having only equal bits.
pub open spec fn spread(a: int) -> nat {
    if a < 0 { (-a - 1) as nat } else { a as nat }
}

/// The operation on the bits of two integers, negative ones in two's complement
/// without end: the lowest bits are combined, then the rest.
pub open spec fn combined(op: BitOp, a: int, b: int) -> int
    decreases spread(a) + spread(b),
{
    if spread(a) == 0 && spread(b) == 0 {
        if bit_of(op, a < 0, b < 0) { -1 } else { 0 }
    } else {
        (if bit_of(op, a % 2 == 1, b % 2 == 1) { 1int } else { 0int }) + 2 * combined(op, a / 2, b / 2)
    }
}

proof fn lemma_unfold(op: BitOp, a: int, b: int)
    ensures
        combined(op, a, b) == (if bit_of(op, a % 2 == 1, b % 2 == 1) { 1int } else { 0int }) + 2 * combined(op, a / 2, b / 2),
{
    if spread(a) == 0 && spread(b) == 0 {
        assert(a == 0 || a == -1);
        assert(b == 0 || b == -1);
        assert(a / 2 == a && b / 2 == b);
    }
}

/// The low and high parts of two integers are combined apart.
proof fn lemma_parts(op: BitOp, k: nat, x: nat, y: nat, p: int, q: int)
    requires
        x < pow2(k),
        y < pow2(k),
    ensures
        combined(op, x + pow2(k) * p, y + pow2(k) * q) == combined(op, x as int, y as int) + pow2(k) * combined(op, p, q),
    decreases k,
{
    lemma2_to64();
    if k == 0 {
        assert(pow2(0) * p == p) by (nonlinear_arith)
            requires
                pow2(0) == 1,
        ;
        assert(pow2(0) * q == q) by (nonlinear_arith)
            requires
                pow2(0) == 1,
        ;
        let c = combined(op, p, q);
        assert(pow2(0) * c == c) by (nonlinear_arith)
            requires
                pow2(0) == 1,
        ;
        assert(combined(op, 0, 0) == 0);
    } else {
        let j = (k - 1) as nat;
        let w = pow2(j) as int;
        lemma_pow2_adds(j, 1);
        assert(pow2(k) == 2 * w);
        assert(pow2(k) * p == 2 * (w * p)) by (nonlinear_arith)
            requires
                pow2(k) == 2 * w,
        ;
        assert(pow2(k) * q == 2 * (w * q)) by (nonlinear_arith)
            requires
                pow2(k) == 2 * w,
        ;
        let a = x + pow2(k) * p;
        let b = y + pow2(k) * q;
        let wp = w * p;
        let wq = w * q;
        assert(a == x + 2 * wp && b == y + 2 * wq);
        assert(a % 2 == x % 2 && a / 2 == x / 2 + wp);
        assert(b % 2 == y % 2 && b / 2 == y / 2 + wq);
        lemma_parts(op, j, x / 2, y / 2, p, q);
        lemma_unfold(op, a, b);
        lemma_unfold(op, x as int, y as int);
        let c = combined(op, p, q);
        assert(pow2(k) * c == 2 * (w * c)) by (nonlinear_arith)
            requires
                pow2(k) == 2 * w,
        ;
    }
}

/// The operation on limbs.
pub open spec fn limb_op(op: BitOp, x: u32, y: u32) -> u32 {
    match op {
        BitOp::And => x & y,
        BitOp::Or => x | y,
        BitOp::Xor => x ^ y,
    }
}

proof fn lemma_limb_op(op: BitOp, x: u32, y: u32)
    ensures
        combined(op, x as int, y as int) == limb_op(op, x, y),
    decreases x + y,
{
    if x == 0 && y == 0 {
        assert(0u32 & 0u32 == 0 && 0u32 | 0u32 == 0 && 0u32 ^ 0u32 == 0) by (bit_vector);
    } else {
        let a = x / 2;
        let b = y / 2;
        lemma_limb_op(op, a, b);
        lemma_unfold(op, x as int, y as int);
        match op {
            BitOp::And => {
                assert((x & y) == (if x % 2 == 1 && y % 2 == 1 { 1u32 } else { 0u32 }) + 2 * ((x / 2) & (y / 2))) by (bit_vector);
            },
            BitOp::Or => {
                assert((x | y) == (if x % 2 == 1 || y % 2 == 1 { 1u32 } else { 0u32 }) + 2 * ((x / 2) | (y / 2))) by (bit_vector);
            },
            BitOp::Xor => {
                assert((x ^ y) == (if (x % 2 == 1) != (y % 2 == 1) { 1u32 } else { 0u32 }) + 2 * ((x / 2) ^ (y / 2))) by (bit_vector);
            },
        }
    }
}

/// The integer whose bits are those of a number, or their complements.
pub open spec fn flagged(neg: bool, y: int) -> int {
    if neg { -1 - y } else { y }
}

fn apply_limb(op: BitOp, x: u32, y: u32) -> (r: u32)
    ensures
        r == limb_op(op, x, y),
{
    match op {
        BitOp::And => x & y,
        BitOp::Or => x | y,
        BitOp::Xor => x ^ y,
    }
}

fn flip(neg: bool, x: u32) -> (r: u32)
    ensures
        r == (if neg { 0xffff_ffff - x } else { x as int }),
{
    if neg { 0xffff_ffffu32 - x } else { x }
}

fn limb_or_zero(v: &Vec<u32>, i: usize) -> (r: u32)
    ensures
        r as nat == (if i < v@.len() { v@[i as int] as nat } else { 0 }),
{
    if i < v.len() { v[i] } else { 0 }
}

proof fn lemma_high_step(s: Seq<u32>, i: nat)
    ensures
        high(s, i) == (if i < s.len() { s[i as int] as nat } else { 0 }) + BASE as nat * high(s, i + 1),
{
    if i >= s.len() {
        assert(high(s, i + 1) == 0);
        assert(BASE as nat * high(s, i + 1) == 0) by (nonlinear_arith)
            requires
                high(s, i + 1) == 0,
        ;
    }
}

/// Combines the limbs of two magnitudes, each of them complemented where its flag
/// holds; the result is complemented where the combined flag holds.
fn combine_limbs(op: BitOp, na: bool, a: &Vec<u32>, nb: bool, b: &Vec<u32>, nr: bool) -> (r: Vec<u32>)
    requires
        nr == bit_of(op, na, nb),
    ensures
        flagged(nr, limbs_value(r@) as int) == combined(op, flagged(na, limbs_value(a@) as int), flagged(nb, limbs_value(b@) as int)),
{
    let n = if a.len() > b.len() { a.len() } else { b.len() };
    let mut r: Vec<u32> = Vec::new();
    let mut i: usize = n;
    assert(high(a@, n as nat) == 0 && high(b@, n as nat) == 0);
    while i > 0
        invariant
            i <= n,
            nr == bit_of(op, na, nb),
            flagged(nr, limbs_value(r@) as int) == combined(op, flagged(na, high(a@, i as nat) as int), flagged(nb, high(b@, i as nat) as int)),
        decreases i,
    {
        i -= 1;
        let x = flip(na, limb_or_zero(a, i));
        let y = flip(nb, limb_or_zero(b, i));
        let t = apply_limb(op, x, y);
        let z = flip(nr, t);
        let ghost was = r@;
        r.insert(0, z);
        proof {
            assert(r@ =~= seq![z] + was);
            lemma_front_value(was, z);
            lemma_high_step(a@, i as nat);
            lemma_high_step(b@, i as nat);
            lemma2_to64();
            let p = flagged(na, high(a@, (i + 1) as nat) as int);
            let q = flagged(nb, high(b@, (i + 1) as nat) as int);
            assert(pow2(32) == BASE as nat);
            lemma_parts(op, 32, x as nat, y as nat, p, q);
            lemma_limb_op(op, x, y);
            assert(flagged(na, high(a@, i as nat) as int) == x + pow2(32) * p);
            assert(flagged(nb, high(b@, i as nat) as int) == y + pow2(32) * q);
        }
    }
    r
}

proof fn lemma_front_value(s: Seq<u32>, x: u32)
    ensures
        limbs_value(seq![x] + s) == x as nat + BASE as nat * limbs_value(s),
{
    lemma_shifted(s, x, 0);
    assert((seq![x] + s)[0] == x);
}

proof fn lemma_shifted(s: Seq<u32>, x: u32, i: nat)
    ensures
        high(seq![x] + s, i + 1) == high(s, i),
    decreases s.len() - i,
{
    if i < s.len() {
        lemma_shifted(s, x, i + 1);
        assert((seq![x] + s)[(i + 1) as int] == s[i as int]);
    }
}

/// The bit operation on two big integers.
pub fn bigint_bitop(a: &Big, b: &Big, op: BitOp) -> (r: Big)
    ensures
        r@ == combined(op, a@, b@),
{
    let one = Big::from_u64(1);
    let na = a.is_negative();
    let nb = b.is_negative();
    let x = if na { a.negated().minus(&one) } else { a.copied() };
    let y = if nb { b.negated().minus(&one) } else { b.copied() };
    let nr = match op {
        BitOp::And => na && nb,
        BitOp::Or => na || nb,
        BitOp::Xor => na != nb,
    };
    let xm = x.limbs();
    let ym = y.limbs();
    let z = combine_limbs(op, na, &xm, nb, &ym, nr);
    let m = Big::from_sign_abs(false, z);
    if nr { m.plus(&one).negated() } else { m }
}

/// An integer shifted to the left.
pub open spec fn shifted_left(a: int, k: nat) -> int {
    a * pow(2, k)
}

/// An integer shifted to the right, rounded down.
pub open spec fn shifted_right(a: int, k: nat) -> int {
    a / pow(2, k)
}

/// A number is below the power of two of its length.
pub proof fn lemma_bits_bound(n: nat)
    ensures
        n < pow2(bits_of(n)),
    decreases n,
{
    lemma2_to64();
    if n > 0 {
        lemma_bits_bound(n / 2);
        lemma_pow2_adds(bits_of(n / 2), 1);
    }
}

impl Big {
    /// Shifts to the left.
    pub fn shl(&self, k: u64) -> (r: Self)
        ensures
            r@ == shifted_left(self@, k as nat),
    {
        let two = Big::from_u64(2);
        self.times(&two.power(k))
    }

    /// Shifts to the right, rounding down.
    pub fn shr(&self, k: u64) -> (r: Self)
        ensures
            r@ == shifted_right(self@, k as nat),
    {
        let ghost p = pow(2, k as nat);
        proof {
            lemma_pow_positive(2, k as nat);
            lemma_pow2(k as nat);
        }
        let bits = self.bit_length();
        if k >= bits && bits < u64::MAX {
            proof {
                let m = magnitude_of(self@);
                lemma_bits_bound(m);
                if bits < k {
                    lemma_pow2_strictly_increases(bits as nat, k as nat);
                }
                assert(m < p);
                if self@ < 0 {
                    lemma_fundamental_div_mod_converse(self@, p, -1, self@ + p);
                } else {
                    lemma_fundamental_div_mod_converse(self@, p, 0, self@);
                }
            }
            return if self.is_negative() { Big::from_u64(1).negated() } else { Big::from_u64(0) };
        }
        let two = Big::from_u64(2);
        let d = two.power(k);
        let (q, m) = self.divmod(&d);
        proof {
            let a = self@;
            let x = magnitude_of(a) as int;
            lemma_fundamental_div_mod(x, p);
            lemma_mod_bound(x, p);
            let qv = x / p;
            let rv = x % p;
            assert(x == p * qv + rv);
            if a < 0 {
                assert(p * (-qv) == -(p * qv)) by (nonlinear_arith);
                assert(p * (-qv - 1) == -(p * qv) - p) by (nonlinear_arith);
                if rv == 0 {
                    lemma_fundamental_div_mod_converse(a, p, -qv, 0);
                } else {
                    lemma_fundamental_div_mod_converse(a, p, -qv - 1, p - rv);
                }
            }
        }
        if self.is_negative() && !m.is_zero() { q.minus(&Big::from_u64(1)) } else { q }
    }
}

/// How two numbers compare.
#[derive(Clone, Copy, PartialEq, Eq, Structural, Debug)]
pub enum Order {
    Less,
    Equal,
    Greater,
}

/// How two integers compare.
pub open spec fn order_of(a: int, b: int) -> Order {
    if a < b { Order::Less } else if a == b { Order::Equal } else { Order::Greater }
}

/// The exact comparison of a double with a big integer; there is none with
/// not-a-number.
pub open spec fn number_against(x: u64, b: int) -> Option<Order> {
    if nan(x) {
        None
    } else if infinite(x) {
        Some(if negative(x) { Order::Less } else { Order::Greater })
    } else {
        Some(order_of(signed(x), b * pow2(1074)))
    }
}

/// Compares two big integers.
pub fn compare_bigs(a: &Big, b: &Big) -> (r: Order)
    ensures
        r == order_of(a@, b@),
{
    if a.less(b) { Order::Less } else if b.less(a) { Order::Greater } else { Order::Equal }
}

/// The scaled magnitude of a double as a big integer.
fn scaled_big(x: u64) -> (r: Big)
    ensures
        r@ == scaled(x),
{
    let m = if x >= SIGN { x - SIGN } else { x };
    let e: u64 = m / HIDDEN;
    let f: u64 = m % HIDDEN;
    if e == 0 {
        Big::from_u64(f)
    } else {
        let mant = Big::from_u64(f + HIDDEN);
        let two = Big::from_u64(2);
        let k: u64 = e - 1;
        let w = two.power(k);
        proof {
            lemma_pow2(k as nat);
        }
        mant.times(&w)
    }
}

/// Compares a double with a big integer exactly.
pub fn compare_number_bigint(x: u64, b: &Big) -> (r: Option<Order>)
    ensures
        r == number_against(x, b@),
{
    if crate::number::is_nan(x) {
        return None;
    }
    if crate::number::is_infinite(x) {
        return Some(if x >= SIGN { Order::Less } else { Order::Greater });
    }
    let s = scaled_big(x);
    let v = if x >= SIGN { s.negated() } else { s };
    let two = Big::from_u64(2);
    let w = two.power(1074);
    proof {
        lemma_pow2(1074);
    }
    let t = b.times(&w);
    Some(compare_bigs(&v, &t))
}

/// Whether a double equals a big integer exactly.
pub fn number_equals_bigint(x: u64, b: &Big) -> (r: bool)
    ensures
        r == (number_against(x, b@) == Some(Order::Equal)),
{
    match compare_number_bigint(x, b) {
        Some(o) => o == Order::Equal,
        None => false,
    }
}

/// Bit operations do not depend on the order of the operands, and the lowest bits
/// of the result depend on the lowest bits of the operands alone.
pub proof fn law_bit_operations(op: BitOp, a: int, b: int)
    ensures
        combined(op, a, b) == combined(op, b, a),
        (combined(op, a, b) % 2 == 1) == bit_of(op, a % 2 == 1, b % 2 == 1),
    decreases spread(a) + spread(b),
{
    if !(spread(a) == 0 && spread(b) == 0) {
        law_bit_operations(op, a / 2, b / 2);
        let c = combined(op, a / 2, b / 2);
        assert((2 * c) % 2 == 0);
    }
}

/// A number combined with itself: `and` and `or` keep it, exclusive or clears it.
pub proof fn law_bit_idempotence(a: int)
    ensures
        combined(BitOp::And, a, a) == a,
        combined(BitOp::Or, a, a) == a,
        combined(BitOp::Xor, a, a) == 0,
    decreases spread(a),
{
    if spread(a) != 0 {
        law_bit_idempotence(a / 2);
    }
}

} // verus!
