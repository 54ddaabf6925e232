//! Big integers: a sign and 32-bit limbs, least significant first.
//!
//! The model of a big integer is the integer itself.
use vstd::prelude::*;
use vstd::arithmetic::power::{lemma_pow_adds, lemma_pow_multiplies, lemma_pow1, lemma_pow0, pow};
use vstd::arithmetic::power2::{lemma_pow2_adds, lemma_pow2_pos, lemma2_to64, pow2};
use crate::text::{all_digits, chars_of, decimal, digit_char, digit_value, digits_value, joined};

verus! {

/// What the limbs count in.
pub const BASE: u64 = 0x1_0000_0000;

/// The number of the limbs from `i` on.
pub open spec fn high(s: Seq<u32>, i: nat) -> nat
    decreases s.len() - i,
{
    if i >= s.len() { 0 } else { s[i as int] as nat + BASE as nat * high(s, i + 1) }
}

/// The number of limbs.
pub open spec fn limbs_value(s: Seq<u32>) -> nat {
    high(s, 0)
}

/// The limb at an index, zero beyond the end.
pub open spec fn limb(s: Seq<u32>, i: nat) -> nat {
    if i < s.len() { s[i as int] as nat } else { 0 }
}

/// The weight of a limb.
pub open spec fn weight(n: nat) -> nat
    decreases n,
{
    if n == 0 { 1 } else { BASE as nat * weight((n - 1) as nat) }
}

/// The number of the limbs below `i`.
pub open spec fn low(s: Seq<u32>, i: nat) -> nat
    decreases i,
{
    if i == 0 { 0 } else { low(s, (i - 1) as nat) + limb(s, (i - 1) as nat) * weight((i - 1) as nat) }
}

proof fn lemma_split(s: Seq<u32>, i: nat)
    ensures
        low(s, i) + weight(i) * high(s, i) == limbs_value(s),
    decreases i,
{
    if i == 0 {
        assert(weight(0) * high(s, 0) == high(s, 0)) by (nonlinear_arith)
            requires
                weight(0) == 1,
        ;
    } else {
        let j = (i - 1) as nat;
        lemma_split(s, j);
        let w = weight(j);
        let h = high(s, i);
        let b = BASE as nat;
        let l = limb(s, j);
        assert(high(s, j) == l + b * h) by {
            if j >= s.len() {
                assert(h == 0);
                assert(b * h == 0) by (nonlinear_arith)
                    requires
                        h == 0,
                ;
            }
        }
        assert(w * (l + b * h) == l * w + (b * w) * h) by (nonlinear_arith);
    }
}

proof fn lemma_low_all(s: Seq<u32>, n: nat)
    requires
        n >= s.len(),
    ensures
        low(s, n) == limbs_value(s),
{
    lemma_split(s, n);
    assert(high(s, n) == 0);
    assert(weight(n) * high(s, n) == 0) by (nonlinear_arith)
        requires
            high(s, n) == 0,
    ;
}

proof fn lemma_low_bound(s: Seq<u32>, n: nat)
    ensures
        low(s, n) < weight(n),
    decreases n,
{
    if n > 0 {
        let j = (n - 1) as nat;
        lemma_low_bound(s, j);
        let w = weight(j);
        let l = limb(s, j);
        assert(low(s, j) + l * w < BASE as nat * w) by (nonlinear_arith)
            requires
                low(s, j) < w,
                l <= BASE - 1,
        ;
    }
}

proof fn lemma_low_push(s: Seq<u32>, x: u32, n: nat)
    requires
        n <= s.len(),
    ensures
        low(s.push(x), n) == low(s, n),
    decreases n,
{
    if n > 0 {
        lemma_low_push(s, x, (n - 1) as nat);
    }
}

proof fn lemma_high_front(s: Seq<u32>, x: u32, i: nat)
    ensures
        high(seq![x] + s, i + 1) == high(s, i),
    decreases s.len() - i,
{
    if i < s.len() {
        lemma_high_front(s, x, i + 1);
        assert((seq![x] + s)[(i + 1) as int] == s[i as int]);
    }
}

proof fn lemma_front(s: Seq<u32>, x: u32)
    ensures
        limbs_value(seq![x] + s) == x as nat + BASE as nat * limbs_value(s),
{
    lemma_high_front(s, x, 0);
    assert((seq![x] + s)[0] == x);
}

fn limb_at(v: &Vec<u32>, i: usize) -> (r: u32)
    ensures
        r as nat == limb(v@, i as nat),
{
    if i < v.len() { v[i] } else { 0 }
}

fn cut_zeros(v: Vec<u32>) -> (r: Vec<u32>)
    ensures
        limbs_value(r@) == limbs_value(v@),
        r@.len() > 0 ==> r@.last() != 0,
{
    let mut r = v;
    while r.len() > 0 && r[r.len() - 1] == 0
        invariant
            limbs_value(r@) == limbs_value(v@),
        decreases r@.len(),
    {
        let ghost before = r@;
        r.pop();
        proof {
            let n = r@.len();
            lemma_low_all(before, before.len());
            lemma_low_all(r@, n);
            assert(before =~= r@.push(0u32));
            lemma_low_push(r@, 0u32, n);
            assert(limb(before, n) * weight(n) == 0) by (nonlinear_arith)
                requires
                    limb(before, n) == 0,
            ;
        }
    }
    r
}

/// The limbs without leading zeros stand for zero only if there are none.
proof fn lemma_nonzero(s: Seq<u32>)
    requires
        s.len() > 0,
        s.last() != 0,
    ensures
        limbs_value(s) > 0,
{
    lemma_low_all(s, s.len());
    let j = (s.len() - 1) as nat;
    lemma_weight_pos(j);
    assert(limb(s, j) * weight(j) > 0) by (nonlinear_arith)
        requires
            limb(s, j) > 0,
            weight(j) > 0,
    ;
}

/// More than two limbs do not fit 64 bits.
proof fn lemma_large(s: Seq<u32>)
    requires
        s.len() > 2,
        s.last() != 0,
    ensures
        limbs_value(s) > u64::MAX,
{
    lemma_low_all(s, s.len());
    let j = (s.len() - 1) as nat;
    lemma_weight_large(j);
    assert(limb(s, j) * weight(j) >= weight(j)) by (nonlinear_arith)
        requires
            limb(s, j) >= 1,
    ;
}

proof fn lemma_weight_large(n: nat)
    requires
        n >= 2,
    ensures
        weight(n) > u64::MAX,
    decreases n,
{
    if n == 2 {
        assert(weight(0) == 1);
        assert(weight(1) == BASE as nat * weight(0));
        assert(weight(2) == BASE as nat * weight(1));
    } else {
        lemma_weight_large((n - 1) as nat);
        let w = weight((n - 1) as nat);
        assert(BASE as nat * w >= w) by (nonlinear_arith)
            requires
                BASE >= 1,
        ;
    }
}

proof fn lemma_weight_pos(n: nat)
    ensures
        weight(n) > 0,
    decreases n,
{
    if n > 0 {
        lemma_weight_pos((n - 1) as nat);
    }
}

fn add_limbs(a: &Vec<u32>, b: &Vec<u32>) -> (r: Vec<u32>)
    ensures
        limbs_value(r@) == limbs_value(a@) + limbs_value(b@),
        r@.len() > 0 ==> r@.last() != 0,
{
    let n = if a.len() > b.len() { a.len() } else { b.len() };
    let mut r: Vec<u32> = Vec::new();
    let mut carry: u64 = 0;
    let mut i: usize = 0;
    assert(carry * weight(0) == 0) by (nonlinear_arith)
        requires
            carry == 0,
    ;
    while i < n
        invariant
            n >= a@.len(),
            n >= b@.len(),
            i <= n,
            r@.len() == i,
            carry <= 1,
            low(r@, i as nat) + carry * weight(i as nat) == low(a@, i as nat) + low(b@, i as nat),
        decreases n - i,
    {
        let x = limb_at(a, i);
        let y = limb_at(b, i);
        let sum: u64 = x as u64 + y as u64 + carry;
        let d: u32 = (sum % BASE) as u32;
        let c: u64 = sum / BASE;
        let ghost was = r@;
        r.push(d);
        proof {
            let k = i as nat;
            lemma_low_push(was, d, k);
            let w = weight(k);
            assert(limb(r@, k) == d as nat);
            assert(sum == d + c * BASE);
            assert(d * w + c * (BASE * w) == (x + y + carry) * w) by (nonlinear_arith)
                requires
                    d + c * BASE == x + y + carry,
            ;
            assert((x + y + carry) * w == x * w + y * w + carry * w) by (nonlinear_arith);
        }
        carry = c;
        i += 1;
    }
    let ghost was = r@;
    if carry > 0 {
        r.push(1);
    }
    proof {
        let k = n as nat;
        lemma_low_all(a@, k);
        lemma_low_all(b@, k);
        if carry > 0 {
            lemma_low_push(was, 1u32, k);
            lemma_low_all(r@, k + 1);
            assert(limb(r@, k) == 1);
        } else {
            lemma_low_all(r@, k);
            assert(carry * weight(k) == 0) by (nonlinear_arith)
                requires
                    carry == 0,
            ;
        }
    }
    cut_zeros(r)
}

fn sub_limbs(a: &Vec<u32>, b: &Vec<u32>) -> (r: Vec<u32>)
    requires
        limbs_value(a@) >= limbs_value(b@),
    ensures
        limbs_value(r@) == limbs_value(a@) - limbs_value(b@),
        r@.len() > 0 ==> r@.last() != 0,
{
    let n = if a.len() > b.len() { a.len() } else { b.len() };
    let mut r: Vec<u32> = Vec::new();
    let mut borrow: u64 = 0;
    let mut i: usize = 0;
    assert(borrow * weight(0) == 0) by (nonlinear_arith)
        requires
            borrow == 0,
    ;
    while i < n
        invariant
            n >= a@.len(),
            n >= b@.len(),
            i <= n,
            r@.len() == i,
            borrow <= 1,
            low(r@, i as nat) + low(b@, i as nat) == low(a@, i as nat) + borrow * weight(i as nat),
        decreases n - i,
    {
        let x = limb_at(a, i);
        let y = limb_at(b, i);
        let take: u64 = y as u64 + borrow;
        let c: u64 = if x as u64 >= take { 0 } else { 1 };
        let d: u32 = (x as u64 + c * BASE - take) as u32;
        let ghost was = r@;
        r.push(d);
        proof {
            let k = i as nat;
            lemma_low_push(was, d, k);
            let w = weight(k);
            assert(limb(r@, k) == d as nat);
            assert(d + y + borrow == x + c * BASE);
            assert(d * w + y * w + borrow * w == x * w + c * (BASE * w)) by (nonlinear_arith)
                requires
                    d + y + borrow == x + c * BASE,
            ;
        }
        borrow = c;
        i += 1;
    }
    proof {
        let k = n as nat;
        lemma_low_all(a@, k);
        lemma_low_all(b@, k);
        lemma_low_all(r@, k);
        lemma_low_bound(r@, k);
        if borrow == 1 {
            assert(borrow * weight(k) == weight(k)) by (nonlinear_arith)
                requires
                    borrow == 1,
            ;
        } else {
            assert(borrow * weight(k) == 0) by (nonlinear_arith)
                requires
                    borrow == 0,
            ;
        }
    }
    cut_zeros(r)
}

/// Whether the first number is smaller.
fn limbs_less(a: &Vec<u32>, b: &Vec<u32>) -> (r: bool)
    ensures
        r == (limbs_value(a@) < limbs_value(b@)),
{
    let n = if a.len() > b.len() { a.len() } else { b.len() };
    let mut less = false;
    let mut i: usize = 0;
    while i < n
        invariant
            n >= a@.len(),
            n >= b@.len(),
            i <= n,
            less == (low(a@, i as nat) < low(b@, i as nat)),
        decreases n - i,
    {
        let x = limb_at(a, i);
        let y = limb_at(b, i);
        proof {
            let k = i as nat;
            let w = weight(k);
            lemma_low_bound(a@, k);
            lemma_low_bound(b@, k);
            if x < y {
                assert(x * w + w <= y * w) by (nonlinear_arith)
                    requires
                        x + 1 <= y,
                ;
            } else if y < x {
                assert(y * w + w <= x * w) by (nonlinear_arith)
                    requires
                        y + 1 <= x,
                ;
            }
        }
        if x < y {
            less = true;
        } else if y < x {
            less = false;
        }
        i += 1;
    }
    proof {
        lemma_low_all(a@, n as nat);
        lemma_low_all(b@, n as nat);
    }
    less
}

/// A number times a small one plus another.
fn scale_limbs(a: &Vec<u32>, m: u32, c: u32) -> (r: Vec<u32>)
    ensures
        limbs_value(r@) == limbs_value(a@) * m + c,
        r@.len() > 0 ==> r@.last() != 0,
{
    let mut r: Vec<u32> = Vec::new();
    let mut carry: u64 = c as u64;
    let mut i: usize = 0;
    assert(low(a@, 0) * m == 0) by (nonlinear_arith)
        requires
            low(a@, 0) == 0,
    ;
    assert(carry * weight(0) == carry) by (nonlinear_arith)
        requires
            weight(0) == 1,
    ;
    while i < a.len()
        invariant
            i <= a@.len(),
            r@.len() == i,
            carry < BASE,
            low(r@, i as nat) + carry * weight(i as nat) == low(a@, i as nat) * m + c,
        decreases a@.len() - i,
    {
        let x = a[i];
        assert(x * m <= 0xffff_ffff * 0xffff_ffff) by (nonlinear_arith)
            requires
                x <= 0xffff_ffff,
                m <= 0xffff_ffff,
        ;
        let sum: u64 = x as u64 * m as u64 + carry;
        let d: u32 = (sum % BASE) as u32;
        let k1: u64 = sum / BASE;
        let ghost was = r@;
        r.push(d);
        proof {
            let k = i as nat;
            lemma_low_push(was, d, k);
            let w = weight(k);
            assert(limb(r@, k) == d as nat);
            assert(limb(a@, k) == x as nat);
            assert(sum == d + k1 * BASE);
            assert(d * w + k1 * (BASE * w) == (x * m) * w + carry * w) by (nonlinear_arith)
                requires
                    d + k1 * BASE == x * m + carry,
            ;
            assert((low(a@, k) + x * w) * m == low(a@, k) * m + (x * m) * w) by (nonlinear_arith);
        }
        carry = k1;
        i += 1;
    }
    let ghost was = r@;
    r.push(carry as u32);
    proof {
        let k = a@.len();
        lemma_low_push(was, carry as u32, k);
        lemma_low_all(a@, k);
        lemma_low_all(r@, k + 1);
        assert(limb(r@, k) == carry as nat);
    }
    cut_zeros(r)
}

fn shift_limb(a: &Vec<u32>) -> (r: Vec<u32>)
    ensures
        limbs_value(r@) == BASE as nat * limbs_value(a@),
{
    let mut r: Vec<u32> = Vec::new();
    r.push(0);
    let mut i: usize = 0;
    assert(r@ =~= seq![0u32] + a@.take(0));
    while i < a.len()
        invariant
            i <= a@.len(),
            r@ == seq![0u32] + a@.take(i as int),
        decreases a@.len() - i,
    {
        r.push(a[i]);
        i += 1;
        assert(r@ =~= seq![0u32] + a@.take(i as int));
    }
    proof {
        assert(a@.take(i as int) =~= a@);
        lemma_front(a@, 0);
    }
    r
}

fn mul_limbs(a: &Vec<u32>, b: &Vec<u32>) -> (r: Vec<u32>)
    ensures
        limbs_value(r@) == limbs_value(a@) * limbs_value(b@),
        r@.len() > 0 ==> r@.last() != 0,
{
    let mut r: Vec<u32> = Vec::new();
    let mut i: usize = a.len();
    assert(high(a@, i as nat) * limbs_value(b@) == 0) by (nonlinear_arith)
        requires
            high(a@, i as nat) == 0,
    ;
    while i > 0
        invariant
            i <= a@.len(),
            limbs_value(r@) == high(a@, i as nat) * limbs_value(b@),
            r@.len() > 0 ==> r@.last() != 0,
        decreases i,
    {
        let x = a[i - 1];
        let up = shift_limb(&r);
        let part = scale_limbs(b, x, 0);
        r = add_limbs(&up, &part);
        i -= 1;
        proof {
            let h = high(a@, (i + 1) as nat);
            let v = limbs_value(b@);
            let base = BASE as nat;
            assert(base * (h * v) + v * x == (x + base * h) * v) by (nonlinear_arith);
        }
    }
    r
}

/// Divides by a small number.
fn div_small(a: &Vec<u32>, d: u32) -> (r: (Vec<u32>, u32))
    requires
        d > 0,
    ensures
        limbs_value(r.0@) * d + r.1 == limbs_value(a@),
        r.1 < d,
        r.0@.len() > 0 ==> r.0@.last() != 0,
{
    let mut q: Vec<u32> = Vec::new();
    let mut rem: u64 = 0;
    let mut i: usize = a.len();
    assert(limbs_value(q@) * d == 0) by (nonlinear_arith)
        requires
            limbs_value(q@) == 0,
    ;
    while i > 0
        invariant
            d > 0,
            i <= a@.len(),
            rem < d,
            limbs_value(q@) * d + rem == high(a@, i as nat),
        decreases i,
    {
        let x = a[i - 1];
        assert(rem * BASE <= 0xffff_ffff * BASE) by (nonlinear_arith)
            requires
                rem <= 0xffff_ffff,
        ;
        let cur: u64 = rem * BASE + x as u64;
        let t: u64 = cur / (d as u64);
        assert(t < BASE) by (nonlinear_arith)
            requires
                cur == rem * BASE + x,
                x < BASE,
                rem + 1 <= d,
                t == cur / (d as u64),
                d > 0,
        ;
        let ghost was = q@;
        q.insert(0, t as u32);
        let ghost r0 = rem;
        rem = cur % (d as u64);
        i -= 1;
        proof {
            assert(q@ =~= seq![t as u32] + was);
            lemma_front(was, t as u32);
            let base = BASE as nat;
            let v = limbs_value(was);
            assert(cur == t * d + rem) by (nonlinear_arith)
                requires
                    d > 0,
                    t == cur / (d as u64),
                    rem == cur % (d as u64),
            ;
            assert((t + base * v) * d == t * d + base * (v * d)) by (nonlinear_arith);
            assert(base * (v * d + r0) == base * (v * d) + r0 * base) by (nonlinear_arith);
        }
    }
    (cut_zeros(q), rem as u32)
}

fn copy_limbs(a: &Vec<u32>) -> (r: Vec<u32>)
    ensures
        r@ == a@,
{
    let mut r: Vec<u32> = Vec::new();
    let mut i: usize = 0;
    while i < a.len()
        invariant
            i <= a@.len(),
            r@ == a@.take(i as int),
        decreases a@.len() - i,
    {
        r.push(a[i]);
        i += 1;
        assert(r@ =~= a@.take(i as int));
    }
    assert(a@.take(i as int) =~= a@);
    r
}

/// Divides one number by another.
fn div_limbs(a: &Vec<u32>, d: &Vec<u32>) -> (r: (Vec<u32>, Vec<u32>))
    requires
        limbs_value(d@) > 0,
    ensures
        limbs_value(a@) == limbs_value(r.0@) * limbs_value(d@) + limbs_value(r.1@),
        limbs_value(r.1@) < limbs_value(d@),
        r.0@.len() > 0 ==> r.0@.last() != 0,
        r.1@.len() > 0 ==> r.1@.last() != 0,
{
    let ghost dv = limbs_value(d@);
    let mut steps: Vec<Vec<u32>> = Vec::new();
    let mut cur = copy_limbs(d);
    proof {
        lemma2_to64();
        assert(dv * pow2(0) == dv) by (nonlinear_arith)
            requires
                pow2(0) == 1,
        ;
    }
    while !limbs_less(a, &cur)
        invariant
            dv == limbs_value(d@),
            dv > 0,
            limbs_value(cur@) == dv * pow2(steps@.len()),
            forall|j: int| 0 <= j < steps@.len() ==> limbs_value((#[trigger] steps@[j])@) == dv * pow2(j as nat),
        decreases (if limbs_value(cur@) <= limbs_value(a@) { limbs_value(a@) + 1 - limbs_value(cur@) } else { 0 }),
    {
        let next = scale_limbs(&cur, 2, 0);
        let ghost n = steps@.len();
        proof {
            lemma_pow2_pos(n);
            assert(dv * pow2(n) > 0) by (nonlinear_arith)
                requires
                    dv > 0,
                    pow2(n) > 0,
            ;
            lemma2_to64();
            lemma_pow2_adds(n, 1);
            assert((dv * pow2(n)) * 2 == dv * (pow2(n) * 2)) by (nonlinear_arith);
        }
        steps.push(cur);
        cur = next;
    }
    let mut q: Vec<u32> = Vec::new();
    let mut rem = cut_zeros(copy_limbs(a));
    let ghost k0 = steps@.len();
    assert(limbs_value(q@) * (dv * pow2(k0)) == 0) by (nonlinear_arith)
        requires
            limbs_value(q@) == 0,
    ;
    while steps.len() > 0
        invariant
            dv == limbs_value(d@),
            dv > 0,
            forall|j: int| 0 <= j < steps@.len() ==> limbs_value((#[trigger] steps@[j])@) == dv * pow2(j as nat),
            limbs_value(a@) == limbs_value(q@) * (dv * pow2(steps@.len())) + limbs_value(rem@),
            limbs_value(rem@) < dv * pow2(steps@.len()),
            q@.len() > 0 ==> q@.last() != 0,
            rem@.len() > 0 ==> rem@.last() != 0,
        decreases steps@.len(),
    {
        let ghost n = steps@.len();
        let ghost qv = limbs_value(q@);
        let ghost rv = limbs_value(rem@);
        assert(limbs_value(steps@[n - 1]@) == dv * pow2((n - 1) as nat));
        let step = match steps.pop() {
            Some(s) => s,
            None => Vec::new(),
        };
        let ghost m = (n - 1) as nat;
        let ghost sv = dv * pow2(m);
        proof {
            lemma2_to64();
            lemma_pow2_adds(m, 1);
            assert(qv * (dv * (pow2(m) * 2)) == (qv * 2) * (dv * pow2(m))) by (nonlinear_arith);
            assert(dv * (pow2(m) * 2) == 2 * (dv * pow2(m))) by (nonlinear_arith);
        }
        if limbs_less(&rem, &step) {
            q = scale_limbs(&q, 2, 0);
        } else {
            rem = sub_limbs(&rem, &step);
            q = scale_limbs(&q, 2, 1);
            proof {
                assert((qv * 2 + 1) * sv == (qv * 2) * sv + sv) by (nonlinear_arith);
            }
        }
    }
    proof {
        lemma2_to64();
        assert(dv * pow2(0) == dv) by (nonlinear_arith)
            requires
                pow2(0) == 1,
        ;
    }
    (q, rem)
}

/// A big integer.
pub struct Big {
    neg: bool,
    mag: Vec<u32>,
}

/// The decimal text of an integer.
pub open spec fn int_text(n: int) -> Seq<char> {
    if n < 0 { "-"@ + decimal((-n) as nat) } else { decimal(n as nat) }
}

/// The integer that a decimal text stands for: an optional minus sign, then
/// digits.
pub open spec fn int_of(t: Seq<char>) -> Option<int> {
    if t.len() > 0 && t[0] == '-' {
        let d = t.subrange(1, t.len() as int);
        if all_digits(d) { Some(-(digits_value(d) as int)) } else { None }
    } else if all_digits(t) {
        Some(digits_value(t) as int)
    } else {
        None
    }
}

/// The quotient, cut towards zero.
pub open spec fn quotient(a: int, b: int) -> int {
    let q = magnitude_of(a) / magnitude_of(b);
    if (a < 0) != (b < 0) { -(q as int) } else { q as int }
}

/// The remainder, with the sign of the dividend.
pub open spec fn remainder(a: int, b: int) -> int {
    let r = magnitude_of(a) % magnitude_of(b);
    if a < 0 { -(r as int) } else { r as int }
}

/// The number without its sign.
pub open spec fn magnitude_of(a: int) -> nat {
    if a < 0 { (-a) as nat } else { a as nat }
}

/// How many bits a number has.
pub open spec fn bits_of(n: nat) -> nat
    decreases n,
{
    if n == 0 { 0 } else { 1 + bits_of(n / 2) }
}

impl Big {
    #[verifier::type_invariant]
    spec fn inv(self) -> bool {
        &&& self.mag@.len() > 0 ==> self.mag@.last() != 0
        &&& self.neg ==> self.mag@.len() > 0
    }

    /// The integer.
    pub closed spec fn view(&self) -> int {
        if self.neg { -(limbs_value(self.mag@) as int) } else { limbs_value(self.mag@) as int }
    }

    fn make(neg: bool, mag: Vec<u32>) -> (r: Self)
        requires
            mag@.len() > 0 ==> mag@.last() != 0,
        ensures
            r@ == (if neg { -(limbs_value(mag@) as int) } else { limbs_value(mag@) as int }),
    {
        let n = mag.len();
        assert(n == 0 ==> limbs_value(mag@) == 0);
        Big { neg: neg && n > 0, mag }
    }

    /// A sign and limbs, least significant first.
    pub fn from_sign_abs(neg: bool, mag: Vec<u32>) -> (r: Self)
        ensures
            r@ == (if neg { -(limbs_value(mag@) as int) } else { limbs_value(mag@) as int }),
    {
        Big::make(neg, cut_zeros(mag))
    }

    /// A small integer.
    pub fn from_u64(n: u64) -> (r: Self)
        ensures
            r@ == n,
    {
        let v: Vec<u32> = vec![(n % BASE) as u32, (n / BASE) as u32];
        proof {
            reveal_with_fuel(high, 4);
            assert(v@[0] as nat + BASE as nat * (v@[1] as nat + BASE as nat * 0) == n);
        }
        Big::from_sign_abs(false, v)
    }

    /// Reads a decimal text.
    pub fn from_decimal(s: &str) -> (r: Option<Self>)
        ensures
            match r {
                Some(b) => int_of(s@) == Some(b@),
                None => int_of(s@) is None,
            },
    {
        let v = chars_of(s);
        let neg = v.len() > 0 && v[0] == '-';
        let start: usize = if neg { 1 } else { 0 };
        let ghost d = if neg { s@.subrange(1, s@.len() as int) } else { s@ };
        assert(d =~= v@.subrange(start as int, v@.len() as int));
        if start == v.len() {
            assert(!all_digits(d));
            return None;
        }
        let mut mag: Vec<u32> = Vec::new();
        let mut i: usize = start;
        assert(d.take(0) =~= Seq::<char>::empty());
        while i < v.len()
            invariant
                start <= i <= v@.len(),
                d == v@.subrange(start as int, v@.len() as int),
                d == (if neg { s@.subrange(1, s@.len() as int) } else { s@ }),
                neg == (s@.len() > 0 && s@[0] == '-'),
                forall|j: int| 0 <= j < i - start ==> '0' <= #[trigger] d[j] <= '9',
                limbs_value(mag@) == digits_value(d.take(i - start)),
                mag@.len() > 0 ==> mag@.last() != 0,
            decreases v@.len() - i,
        {
            let c = v[i];
            assert(d[i - start] == c);
            if c < '0' || c > '9' {
                assert(!all_digits(d));
                return None;
            }
            let k = c as u32 - '0' as u32;
            let ghost n = i - start;
            assert(d.take(n + 1).drop_last() =~= d.take(n));
            mag = scale_limbs(&mag, 10, k);
            i += 1;
        }
        assert(d.take(d.len() as int) =~= d);
        Some(Big::make(neg, mag))
    }

    /// The decimal text.
    pub fn to_decimal_string(&self) -> (r: String)
        ensures
            r@ == int_text(self@),
    {
        proof {
            use_type_invariant(self);
            if self.neg {
                lemma_nonzero(self.mag@);
            }
        }
        let t = decimal_of(&self.mag);
        if self.neg { joined("-", t.as_str()) } else { t }
    }

    /// Whether the number is zero.
    pub fn is_zero(&self) -> (r: bool)
        ensures
            r == (self@ == 0),
    {
        proof {
            use_type_invariant(self);
            if self.mag@.len() > 0 {
                lemma_nonzero(self.mag@);
            }
        }
        self.mag.len() == 0
    }

    /// Whether the number is negative.
    pub fn is_negative(&self) -> (r: bool)
        ensures
            r == (self@ < 0),
    {
        proof {
            use_type_invariant(self);
            if self.mag@.len() > 0 {
                lemma_nonzero(self.mag@);
            }
        }
        self.neg
    }

    /// The number with the other sign.
    pub fn negated(&self) -> (r: Self)
        ensures
            r@ == -self@,
    {
        proof {
            use_type_invariant(self);
        }
        Big::make(!self.neg, copy_limbs(&self.mag))
    }

    /// The sum.
    pub fn plus(&self, b: &Big) -> (r: Self)
        ensures
            r@ == self@ + b@,
    {
        proof {
            use_type_invariant(self);
            use_type_invariant(b);
        }
        if self.neg == b.neg {
            Big::make(self.neg, add_limbs(&self.mag, &b.mag))
        } else if limbs_less(&self.mag, &b.mag) {
            Big::make(b.neg, sub_limbs(&b.mag, &self.mag))
        } else {
            Big::make(self.neg, sub_limbs(&self.mag, &b.mag))
        }
    }

    /// The difference.
    pub fn minus(&self, b: &Big) -> (r: Self)
        ensures
            r@ == self@ - b@,
    {
        self.plus(&b.negated())
    }

    /// The product.
    pub fn times(&self, b: &Big) -> (r: Self)
        ensures
            r@ == self@ * b@,
    {
        proof {
            use_type_invariant(self);
            use_type_invariant(b);
            let x = limbs_value(self.mag@) as int;
            let y = limbs_value(b.mag@) as int;
            assert((-x) * y == -(x * y)) by (nonlinear_arith);
            assert(x * (-y) == -(x * y)) by (nonlinear_arith);
            assert((-x) * (-y) == x * y) by (nonlinear_arith);
        }
        Big::make(self.neg != b.neg, mul_limbs(&self.mag, &b.mag))
    }

    /// The quotient cut towards zero, and the remainder.
    pub fn divmod(&self, b: &Big) -> (r: (Self, Self))
        requires
            b@ != 0,
        ensures
            r.0@ == quotient(self@, b@),
            r.1@ == remainder(self@, b@),
    {
        proof {
            use_type_invariant(self);
            use_type_invariant(b);
            if self.mag@.len() > 0 {
                lemma_nonzero(self.mag@);
            }
            if b.mag@.len() > 0 {
                lemma_nonzero(b.mag@);
            }
        }
        let (q, m) = div_limbs(&self.mag, &b.mag);
        proof {
            let x = limbs_value(self.mag@) as int;
            let y = limbs_value(b.mag@) as int;
            vstd::arithmetic::div_mod::lemma_fundamental_div_mod_converse(x, y, limbs_value(q@) as int, limbs_value(m@) as int);
        }
        (Big::make(self.neg != b.neg, q), Big::make(self.neg, m))
    }

    /// Whether the number is smaller than another.
    pub fn less(&self, b: &Big) -> (r: bool)
        ensures
            r == (self@ < b@),
    {
        proof {
            use_type_invariant(self);
            use_type_invariant(b);
            if self.mag@.len() > 0 {
                lemma_nonzero(self.mag@);
            }
            if b.mag@.len() > 0 {
                lemma_nonzero(b.mag@);
            }
        }
        if self.neg != b.neg {
            self.neg
        } else if self.neg {
            limbs_less(&b.mag, &self.mag)
        } else {
            limbs_less(&self.mag, &b.mag)
        }
    }

    /// Whether two numbers are equal.
    pub fn same(&self, b: &Big) -> (r: bool)
        ensures
            r == (self@ == b@),
    {
        !self.less(b) && !b.less(self)
    }

    /// A power.
    pub fn power(&self, e: u64) -> (r: Self)
        ensures
            r@ == pow(self@, e as nat),
    {
        let mut result = Big::from_u64(1);
        let mut base = self.copied();
        let mut n: u64 = e;
        proof {
            assert(1 * pow(self@, e as nat) == pow(self@, e as nat));
        }
        while n > 0
            invariant
                result@ * pow(base@, n as nat) == pow(self@, e as nat),
            decreases n,
        {
            let ghost b0 = base@;
            let ghost r0 = result@;
            let ghost n0 = n;
            let half = base.times(&base);
            proof {
                let h = (n / 2) as nat;
                lemma_pow_multiplies(b0, 2, h);
                lemma_pow_adds(b0, 1, 1);
                lemma_pow1(b0);
                assert(pow(b0, 2) == b0 * b0);
                assert(pow(half@, h) == pow(b0, 2 * h));
            }
            if n % 2 == 1 {
                result = result.times(&base);
                proof {
                    let h = (n0 / 2) as nat;
                    lemma_pow_adds(b0, 1, 2 * h);
                    lemma_pow1(b0);
                    assert(1 + 2 * h == n0);
                    assert((r0 * b0) * pow(b0, 2 * h) == r0 * (b0 * pow(b0, 2 * h))) by (nonlinear_arith);
                }
            }
            base = half;
            n = n / 2;
        }
        proof {
            lemma_pow0(base@);
            assert(result@ * 1 == result@);
        }
        result
    }

    /// The same number.
    pub fn copied(&self) -> (r: Self)
        ensures
            r@ == self@,
    {
        proof {
            use_type_invariant(self);
        }
        Big::make(self.neg, copy_limbs(&self.mag))
    }

    /// The limbs of the magnitude.
    pub fn limbs(&self) -> (r: Vec<u32>)
        ensures
            limbs_value(r@) == magnitude_of(self@),
    {
        proof {
            use_type_invariant(self);
            if self.mag@.len() > 0 {
                lemma_nonzero(self.mag@);
            }
        }
        copy_limbs(&self.mag)
    }

    /// The number itself, where 64 bits hold it.
    pub fn small(&self) -> (r: Option<u64>)
        ensures
            r == (if 0 <= self@ <= u64::MAX { Some(self@ as u64) } else { None }),
    {
        proof {
            use_type_invariant(self);
            if self.mag@.len() > 0 {
                lemma_nonzero(self.mag@);
            }
        }
        if self.neg {
            return None;
        }
        let n = self.mag.len();
        if n > 2 {
            proof {
                lemma_low_all(self.mag@, self.mag@.len());
                lemma_large(self.mag@);
            }
            return None;
        }
        let a: u64 = if n > 0 { self.mag[0] as u64 } else { 0 };
        let b: u64 = if n > 1 { self.mag[1] as u64 } else { 0 };
        proof {
            reveal_with_fuel(high, 4);
        }
        Some(a + b * BASE)
    }

    /// How many bits the magnitude has.
    pub fn bit_length(&self) -> (r: u64)
        ensures
            r as nat == (if bits_of(magnitude_of(self@)) > u64::MAX { u64::MAX as nat } else { bits_of(magnitude_of(self@)) }),
    {
        proof {
            use_type_invariant(self);
            if self.mag@.len() > 0 {
                lemma_nonzero(self.mag@);
            }
        }
        let mut cur = copy_limbs(&self.mag);
        let mut n: u64 = 0;
        let ghost all = limbs_value(self.mag@);
        while cur.len() > 0
            invariant
                all == magnitude_of(self@),
                bits_of(all) == n + bits_of(limbs_value(cur@)),
                cur@.len() > 0 ==> cur@.last() != 0,
            decreases limbs_value(cur@),
        {
            proof {
                lemma_nonzero(cur@);
            }
            if n == u64::MAX {
                return n;
            }
            let (half, bit) = div_small(&cur, 2);
            proof {
                assert(limbs_value(half@) == limbs_value(cur@) / 2);
            }
            cur = half;
            n += 1;
        }
        n
    }
}

/// The decimal text of limbs.
fn decimal_of(mag: &Vec<u32>) -> (r: String)
    requires
        mag@.len() > 0 ==> mag@.last() != 0,
    ensures
        r@ == decimal(limbs_value(mag@)),
{
    let mut cur = copy_limbs(mag);
    let mut digits: Vec<char> = Vec::new();
    let ghost all = limbs_value(mag@);
    assert(digits@.reverse() =~= Seq::<char>::empty());
    assert(decimal(all) =~= decimal(limbs_value(cur@)) + digits@.reverse());
    loop
        invariant
            all == limbs_value(mag@),
            decimal(all) == decimal(limbs_value(cur@)) + digits@.reverse(),
            cur@.len() > 0 ==> cur@.last() != 0,
        decreases limbs_value(cur@),
    {
        let (q, d) = div_small(&cur, 10);
        let c = digit(d);
        let ghost before = digits@;
        let ghost v = limbs_value(cur@);
        digits.push(c);
        proof {
            assert(limbs_value(q@) == v / 10 && d as nat == v % 10);
            assert(digits@.reverse() =~= seq![c] + before.reverse());
        }
        if q.len() == 0 {
            proof {
                assert(v < 10);
                assert(decimal(v) =~= seq![c]);
                assert(decimal(all) =~= digits@.reverse());
            }
            return reversed_text(&digits);
        }
        proof {
            lemma_nonzero(q@);
            assert(decimal(v) == decimal(v / 10).push(c));
            assert(decimal(all) =~= decimal(limbs_value(q@)) + digits@.reverse());
        }
        cur = q;
    }
}

fn digit(d: u32) -> (r: char)
    requires
        d < 10,
    ensures
        r == digit_char(d as nat),
{
    if d == 0 { '0' } else if d == 1 { '1' } else if d == 2 { '2' } else if d == 3 { '3' } else if d == 4 { '4' }
    else if d == 5 { '5' } else if d == 6 { '6' } else if d == 7 { '7' } else if d == 8 { '8' } else { '9' }
}

fn reversed_text(v: &Vec<char>) -> (r: String)
    ensures
        r@ == v@.reverse(),
{
    let mut r = String::new();
    let mut i: usize = v.len();
    assert(r@ =~= v@.reverse().take(0));
    while i > 0
        invariant
            i <= v@.len(),
            r@ == v@.reverse().take(v@.len() - i),
        decreases i,
    {
        r.push(v[i - 1]);
        i -= 1;
        assert(r@ =~= v@.reverse().take(v@.len() - i));
    }
    assert(v@.reverse().take(v@.len() as int) =~= v@.reverse());
    r
}

/// The decimal text of an integer is read back as the integer.
pub proof fn law_decimal_round_trip(n: int)
    ensures
        int_of(int_text(n)) == Some(n),
{
    let m = magnitude_of(n);
    lemma_decimal_digits(m);
    let t = decimal(m);
    reveal_strlit("-");
    if n < 0 {
        let s = int_text(n);
        assert(s[0] == '-');
        assert(s.subrange(1, s.len() as int) =~= t);
    } else {
        assert('0' <= t[0] <= '9');
    }
}

pub proof fn lemma_decimal_digits(n: nat)
    ensures
        all_digits(decimal(n)),
        digits_value(decimal(n)) == n,
    decreases n,
{
    let t = decimal(n);
    if n < 10 {
        assert(t.drop_last() =~= Seq::<char>::empty());
        assert(digits_value(t.drop_last()) == 0);
        assert(digit_value(digit_char(n)) == Some(n));
    } else {
        lemma_decimal_digits(n / 10);
        assert(t.drop_last() =~= decimal(n / 10));
        assert(digit_value(digit_char(n % 10)) == Some(n % 10));
        assert forall|i: int| 0 <= i < t.len() implies '0' <= #[trigger] t[i] <= '9' by {
            if i < t.len() - 1 {
                assert(t[i] == decimal(n / 10)[i]);
            }
        }
    }
}

/// Division undoes multiplication up to the remainder, which is smaller than the
/// divisor and has the sign of the dividend.
pub proof fn law_division(a: int, b: int)
    requires
        b != 0,
    ensures
        quotient(a, b) * b + remainder(a, b) == a,
        magnitude_of(remainder(a, b)) < magnitude_of(b),
        remainder(a, b) != 0 ==> (remainder(a, b) < 0) == (a < 0),
{
    let x = magnitude_of(a) as int;
    let y = magnitude_of(b) as int;
    vstd::arithmetic::div_mod::lemma_fundamental_div_mod(x, y);
    vstd::arithmetic::div_mod::lemma_mod_bound(x, y);
    let q = x / y;
    let r = x % y;
    assert(x == y * q + r);
    assert((-q) * y == -(q * y)) by (nonlinear_arith);
    assert(q * (-y) == -(q * y)) by (nonlinear_arith);
    assert((-q) * (-y) == q * y) by (nonlinear_arith);
    assert(q * y == y * q) by (nonlinear_arith);
}

} // verus!
