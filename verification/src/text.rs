//! Characters and strings.
use vstd::prelude::*;

verus! {

/// `String::push` of the standard library: the string grows by the one character
/// at its end.
pub assume_specification[ std::string::String::push ](s: &mut std::string::String, c: char)
    ensures
        final(s)@ == old(s)@.push(c),
;

/// The characters of `s`, in order.
pub fn chars_of(s: &str) -> (r: Vec<char>)
    ensures
        r@ == s@,
{
    let mut r: Vec<char> = Vec::new();
    for c in it: s.chars()
        invariant
            r@ == it.seq().take(it.index() as int),
            it.seq() == s@,
    {
        r.push(c);
    }
    r
}

/// The string made of `v[from..to]`.
pub fn string_from(v: &Vec<char>, from: usize, to: usize) -> (r: String)
    requires
        from <= to <= v@.len(),
    ensures
        r@ == v@.subrange(from as int, to as int),
{
    let mut r = String::new();
    let mut i: usize = from;
    assert(r@ =~= v@.subrange(from as int, from as int));
    while i < to
        invariant
            from <= i <= to <= v@.len(),
            r@ == v@.subrange(from as int, i as int),
        decreases to - i,
    {
        r.push(v[i]);
        i += 1;
        assert(r@ =~= v@.subrange(from as int, i as int));
    }
    r
}

/// Whether the character `c` occurs in `s`.
pub fn has_char(s: &str, c: char) -> (r: bool)
    ensures
        r == s@.contains(c),
{
    let v = chars_of(s);
    let mut i: usize = 0;
    while i < v.len()
        invariant
            i <= v@.len(),
            v@ == s@,
            forall|j: int| 0 <= j < i ==> v@[j] != c,
        decreases v@.len() - i,
    {
        if v[i] == c {
            return true;
        }
        i += 1;
    }
    false
}

/// An owned copy of `s`.
pub fn owned(s: &str) -> (r: String)
    ensures
        r@ == s@,
{
    s.to_owned()
}

/// `a` followed by `b`.
pub fn joined(a: &str, b: &str) -> (r: String)
    ensures
        r@ == a@ + b@,
{
    let mut r = a.to_owned();
    r.append(b);
    r
}

/// The decimal digits of `n`, without leading zeros.
pub open spec fn decimal(n: nat) -> Seq<char>
    decreases n,
{
    if n < 10 {
        seq![digit_char(n)]
    } else {
        decimal(n / 10).push(digit_char(n % 10))
    }
}

/// The character of one decimal digit.
pub open spec fn digit_char(d: nat) -> char {
    if d == 0 { '0' } else if d == 1 { '1' } else if d == 2 { '2' } else if d == 3 { '3' } else if d == 4 { '4' }
    else if d == 5 { '5' } else if d == 6 { '6' } else if d == 7 { '7' } else if d == 8 { '8' } else { '9' }
}

fn digit(d: u64) -> (r: char)
    requires
        d < 10,
    ensures
        r == digit_char(d as nat),
{
    if d == 0 { '0' } else if d == 1 { '1' } else if d == 2 { '2' } else if d == 3 { '3' } else if d == 4 { '4' }
    else if d == 5 { '5' } else if d == 6 { '6' } else if d == 7 { '7' } else if d == 8 { '8' } else { '9' }
}

/// The decimal text of `n`.
pub fn decimal_text(n: u64) -> (r: String)
    ensures
        r@ == decimal(n as nat),
    decreases n,
{
    if n < 10 {
        let mut r = String::new();
        r.push(digit(n));
        assert(r@ =~= decimal(n as nat));
        r
    } else {
        let mut r = decimal_text(n / 10);
        r.push(digit(n % 10));
        r
    }
}

/// The value of one decimal digit.
pub open spec fn digit_value(c: char) -> Option<nat> {
    if '0' <= c <= '9' { Some((c as nat - '0' as nat) as nat) } else { None }
}

/// The value of a string of decimal digits, read from the left.
pub open spec fn digits_value(s: Seq<char>) -> nat
    decreases s.len(),
{
    if s.len() == 0 {
        0
    } else {
        digits_value(s.drop_last()) * 10 + (match digit_value(s.last()) {
            Some(d) => d,
            None => 0,
        })
    }
}

/// Whether `s` is a non-empty string of decimal digits.
pub open spec fn all_digits(s: Seq<char>) -> bool {
    s.len() > 0 && forall|i: int| 0 <= i < s.len() ==> '0' <= #[trigger] s[i] <= '9'
}

/// The array index that a property key spells, as the standard library reads an
/// unsigned number: an optional `+`, then digits whose value fits a `usize`.
pub open spec fn index_of_key(s: Seq<char>) -> Option<usize> {
    let d = if s.len() > 0 && s[0] == '+' { s.subrange(1, s.len() as int) } else { s };
    if all_digits(d) && digits_value(d) <= usize::MAX {
        Some(digits_value(d) as usize)
    } else {
        None
    }
}

proof fn lemma_value_grows(s: Seq<char>, n: int)
    requires
        0 <= n <= s.len(),
    ensures
        digits_value(s.take(n)) <= digits_value(s),
    decreases s.len() - n,
{
    if n < s.len() {
        lemma_value_grows(s, n + 1);
        assert(s.take(n + 1).drop_last() =~= s.take(n));
    } else {
        assert(s.take(n) =~= s);
    }
}

/// Reads a property key as an array index.
pub fn parse_index(s: &str) -> (r: Option<usize>)
    ensures
        r == index_of_key(s@),
{
    let v = chars_of(s);
    let start: usize = if v.len() > 0 && v[0] == '+' { 1 } else { 0 };
    let ghost d = if s@.len() > 0 && s@[0] == '+' { s@.subrange(1, s@.len() as int) } else { s@ };
    assert(d =~= v@.subrange(start as int, v@.len() as int));
    if start == v.len() {
        return None;
    }
    let mut i: usize = start;
    let mut acc: usize = 0;
    assert(d.take(0) =~= Seq::<char>::empty());
    while i < v.len()
        invariant
            start <= i <= v@.len(),
            d == v@.subrange(start as int, v@.len() as int),
            d == (if s@.len() > 0 && s@[0] == '+' { s@.subrange(1, s@.len() as int) } else { s@ }),
            d.len() > 0,
            forall|j: int| 0 <= j < i - start ==> '0' <= #[trigger] d[j] <= '9',
            acc == digits_value(d.take(i - start)),
        decreases v@.len() - i,
    {
        let c = v[i];
        assert(d[i - start] == c);
        if c < '0' || c > '9' {
            return None;
        }
        let k = c as u32 - '0' as u32;
        let ghost n = i - start;
        assert(d.take(n + 1).drop_last() =~= d.take(n));
        assert(digits_value(d.take(n + 1)) == digits_value(d.take(n)) * 10 + k);
        proof {
            lemma_value_grows(d, n + 1);
        }
        if acc > (usize::MAX - k as usize) / 10 {
            assert(acc * 10 + k > usize::MAX);
            return None;
        }
        acc = acc * 10 + k as usize;
        i += 1;
    }
    assert(d.take(d.len() as int) =~= d);
    Some(acc)
}

/// The unsigned 64-bit number that a text spells, in the notation of
/// [`index_of_key`].
pub open spec fn number_of(s: Seq<char>) -> Option<u64> {
    let d = if s.len() > 0 && s[0] == '+' { s.subrange(1, s.len() as int) } else { s };
    if all_digits(d) && digits_value(d) <= u64::MAX {
        Some(digits_value(d) as u64)
    } else {
        None
    }
}

/// Reads a text as an unsigned 64-bit number.
pub fn parse_number(s: &str) -> (r: Option<u64>)
    ensures
        r == number_of(s@),
{
    let v = chars_of(s);
    let start: usize = if v.len() > 0 && v[0] == '+' { 1 } else { 0 };
    let ghost d = if s@.len() > 0 && s@[0] == '+' { s@.subrange(1, s@.len() as int) } else { s@ };
    assert(d =~= v@.subrange(start as int, v@.len() as int));
    if start == v.len() {
        return None;
    }
    let mut i: usize = start;
    let mut acc: u64 = 0;
    assert(d.take(0) =~= Seq::<char>::empty());
    while i < v.len()
        invariant
            start <= i <= v@.len(),
            d == v@.subrange(start as int, v@.len() as int),
            d == (if s@.len() > 0 && s@[0] == '+' { s@.subrange(1, s@.len() as int) } else { s@ }),
            d.len() > 0,
            forall|j: int| 0 <= j < i - start ==> '0' <= #[trigger] d[j] <= '9',
            acc == digits_value(d.take(i - start)),
        decreases v@.len() - i,
    {
        let c = v[i];
        assert(d[i - start] == c);
        if c < '0' || c > '9' {
            return None;
        }
        let k = c as u32 - '0' as u32;
        let ghost n = i - start;
        assert(d.take(n + 1).drop_last() =~= d.take(n));
        assert(digits_value(d.take(n + 1)) == digits_value(d.take(n)) * 10 + k);
        proof {
            lemma_value_grows(d, n + 1);
        }
        if acc > (u64::MAX - k as u64) / 10 {
            assert(acc * 10 + k > u64::MAX);
            return None;
        }
        acc = acc * 10 + k as u64;
        i += 1;
    }
    assert(d.take(d.len() as int) =~= d);
    Some(acc)
}

/// The order of texts: by the first character in which they differ, a prefix
/// before what it begins.
pub open spec fn before(a: Seq<char>, b: Seq<char>) -> bool
    decreases a.len(),
{
    if b.len() == 0 {
        false
    } else if a.len() == 0 {
        true
    } else if a[0] != b[0] {
        a[0] < b[0]
    } else {
        before(a.subrange(1, a.len() as int), b.subrange(1, b.len() as int))
    }
}

/// The order of texts is strict and total.
pub proof fn law_text_order(a: Seq<char>, b: Seq<char>)
    ensures
        !before(a, a),
        before(a, b) ==> !before(b, a) && a != b,
        a == b || before(a, b) || before(b, a),
    decreases a.len(),
{
    if a.len() > 0 {
        let a1 = a.subrange(1, a.len() as int);
        law_text_order(a1, a1);
        if b.len() > 0 {
            let b1 = b.subrange(1, b.len() as int);
            law_text_order(a1, b1);
            if a[0] == b[0] && a1 == b1 {
                assert(a =~= seq![a[0]] + a1);
                assert(b =~= seq![b[0]] + b1);
            }
        }
    } else if b.len() == 0 {
        assert(a =~= b);
    }
}

/// The order of texts is transitive.
pub proof fn law_text_order_transitive(a: Seq<char>, b: Seq<char>, c: Seq<char>)
    requires
        before(a, b),
        before(b, c),
    ensures
        before(a, c),
    decreases a.len(),
{
    if a.len() > 0 && a[0] == b[0] && b[0] == c[0] {
        law_text_order_transitive(
            a.subrange(1, a.len() as int),
            b.subrange(1, b.len() as int),
            c.subrange(1, c.len() as int),
        );
    }
}

/// Whether one text comes before another.
pub fn text_before(a: &str, b: &str) -> (r: bool)
    ensures
        r == before(a@, b@),
{
    let x = chars_of(a);
    let y = chars_of(b);
    let mut i: usize = 0;
    assert(a@.subrange(0, a@.len() as int) =~= a@);
    assert(b@.subrange(0, b@.len() as int) =~= b@);
    loop
        invariant
            x@ == a@,
            y@ == b@,
            i <= x@.len(),
            i <= y@.len(),
            before(a@, b@) == before(a@.subrange(i as int, a@.len() as int), b@.subrange(i as int, b@.len() as int)),
        decreases x@.len() - i,
    {
        let ghost p = a@.subrange(i as int, a@.len() as int);
        let ghost q = b@.subrange(i as int, b@.len() as int);
        if i == y.len() {
            return false;
        }
        if i == x.len() {
            return true;
        }
        if x[i] != y[i] {
            assert(p[0] == x@[i as int] && q[0] == y@[i as int]);
            return x[i] < y[i];
        }
        assert(p.subrange(1, p.len() as int) =~= a@.subrange(i + 1, a@.len() as int));
        assert(q.subrange(1, q.len() as int) =~= b@.subrange(i + 1, b@.len() as int));
        i += 1;
    }
}

/// Whether texts stand in strictly ascending order.
pub open spec fn ascending(s: Seq<Seq<char>>) -> bool {
    forall|i: int, j: int| 0 <= i < j < s.len() ==> before(#[trigger] s[i], #[trigger] s[j])
}

/// The views of a list of strings.
pub open spec fn texts(v: Seq<String>) -> Seq<Seq<char>> {
    v.map_values(|s: String| s@)
}

/// Enters a text into an ascending list, unless it is there already.
pub fn insert_text(v: &mut Vec<String>, s: String)
    requires
        ascending(texts(old(v)@)),
    ensures
        ascending(texts(final(v)@)),
        forall|t: Seq<char>| texts(final(v)@).contains(t) <==> texts(old(v)@).contains(t) || t == s@,
{
    let ghost o = v@;
    let ghost ot = texts(o);
    let mut i: usize = 0;
    while i < v.len() && text_before(v[i].as_str(), s.as_str())
        invariant
            v@ == o,
            i <= o.len(),
            forall|j: int| 0 <= j < i ==> before((#[trigger] o[j])@, s@),
        decreases o.len() - i,
    {
        i += 1;
    }
    if i < v.len() && v[i] == s {
        assert(ot[i as int] == s@);
        return;
    }
    if i < v.len() {
        proof {
            law_text_order(o[i as int]@, s@);
        }
    }
    v.insert(i, s);
    proof {
        let nt = texts(v@);
        assert(nt =~= ot.insert(i as int, s@));
        assert forall|a: int, b: int| 0 <= a < b < nt.len() implies before(#[trigger] nt[a], #[trigger] nt[b]) by {
            if b < i {
                assert(before(ot[a], ot[b]));
            } else if b == i {
                assert(before(o[a]@, s@));
            } else if a < i {
                assert(before(ot[a], ot[b - 1]));
            } else if a == i {
                assert(before(s@, ot[i as int]));
                if b - 1 > i {
                    assert(before(ot[i as int], ot[b - 1]));
                    law_text_order_transitive(s@, ot[i as int], ot[b - 1]);
                }
            } else {
                assert(before(ot[a - 1], ot[b - 1]));
            }
        }
        assert forall|t: Seq<char>| nt.contains(t) <==> ot.contains(t) || t == s@ by {
            if nt.contains(t) {
                let k = choose|k: int| 0 <= k < nt.len() && nt[k] == t;
                if k < i {
                    assert(ot[k] == t);
                } else if k > i {
                    assert(ot[k - 1] == t);
                }
            }
            if ot.contains(t) {
                let k = choose|k: int| 0 <= k < ot.len() && ot[k] == t;
                if k < i {
                    assert(nt[k] == t);
                } else {
                    assert(nt[k + 1] == t);
                }
            }
            if t == s@ {
                assert(nt[i as int] == t);
            }
        }
    }
}

} // verus!
