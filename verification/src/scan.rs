//! Searching, cutting and trimming of text held as characters.
use vstd::prelude::*;
use crate::text::chars_of;

verus! {

/// Whether a character has the Unicode property `White_Space`.
pub open spec fn white(c: char) -> bool {
    let n = c as u32;
    (9 <= n <= 13) || n == 0x20 || n == 0x85 || n == 0xa0 || n == 0x1680 || (0x2000 <= n <= 0x200a)
        || n == 0x2028 || n == 0x2029 || n == 0x202f || n == 0x205f || n == 0x3000
}

/// Whether a character is white space.
pub fn is_white(c: char) -> (r: bool)
    ensures
        r == white(c),
{
    let n = c as u32;
    (9 <= n && n <= 13) || n == 0x20 || n == 0x85 || n == 0xa0 || n == 0x1680 || (0x2000 <= n && n <= 0x200a)
        || n == 0x2028 || n == 0x2029 || n == 0x202f || n == 0x205f || n == 0x3000
}

/// Whether `part` stands in `s` at position `i`.
pub open spec fn stands_at(s: Seq<char>, part: Seq<char>, i: int) -> bool {
    0 <= i && i + part.len() <= s.len() && s.subrange(i, i + part.len()) == part
}

/// The first position from `from` on at which `part` stands in `s`.
pub open spec fn position(s: Seq<char>, part: Seq<char>, from: int) -> Option<int>
    decreases s.len() + 1 - from,
{
    if from < 0 || from + part.len() > s.len() {
        None
    } else if stands_at(s, part, from) {
        Some(from)
    } else {
        position(s, part, from + 1)
    }
}

/// The text without the white space at its front.
pub open spec fn trimmed_front(s: Seq<char>) -> Seq<char>
    decreases s.len(),
{
    if s.len() > 0 && white(s[0]) { trimmed_front(s.subrange(1, s.len() as int)) } else { s }
}

/// The text without the white space at its end.
pub open spec fn trimmed_back(s: Seq<char>) -> Seq<char>
    decreases s.len(),
{
    if s.len() > 0 && white(s.last()) { trimmed_back(s.drop_last()) } else { s }
}

/// The text without the white space at both ends.
pub open spec fn trimmed(s: Seq<char>) -> Seq<char> {
    trimmed_back(trimmed_front(s))
}

/// The text without the characters `q` at its front.
pub open spec fn unquoted_front(s: Seq<char>, q: char) -> Seq<char>
    decreases s.len(),
{
    if s.len() > 0 && s[0] == q { unquoted_front(s.subrange(1, s.len() as int), q) } else { s }
}

/// The text without the characters `q` at its end.
pub open spec fn unquoted_back(s: Seq<char>, q: char) -> Seq<char>
    decreases s.len(),
{
    if s.len() > 0 && s.last() == q { unquoted_back(s.drop_last(), q) } else { s }
}

/// The text without the characters `q` at both ends.
pub open spec fn unquoted(s: Seq<char>, q: char) -> Seq<char> {
    unquoted_back(unquoted_front(s, q), q)
}

/// The parts of a text between the separators `c`; one more than there are
/// separators.
pub open spec fn parts(s: Seq<char>, c: char) -> Seq<Seq<char>>
    decreases s.len(),
{
    if s.len() == 0 {
        seq![s]
    } else {
        let init = parts(s.drop_last(), c);
        if s.last() == c {
            init.push(Seq::empty())
        } else {
            init.update(init.len() - 1, init.last().push(s.last()))
        }
    }
}

/// A line without a carriage return at its end.
pub open spec fn without_return(s: Seq<char>) -> Seq<char> {
    if s.len() > 0 && s.last() == '\r' { s.drop_last() } else { s }
}

/// The lines of a text: the parts between line feeds, without a last empty one,
/// and without the carriage return that ends a line.
pub open spec fn lines(s: Seq<char>) -> Seq<Seq<char>> {
    let all = parts(s, '\n');
    let ended = if all.last().len() == 0 { all.drop_last() } else { all };
    Seq::new(ended.len(), |i: int| if i == all.len() - 1 { ended[i] } else { without_return(ended[i]) })
}

/// The views of a list of texts.
pub open spec fn views(v: Seq<Vec<char>>) -> Seq<Seq<char>> {
    v.map_values(|x: Vec<char>| x@)
}

/// A copy of `v[from..to]`.
pub fn slice(v: &Vec<char>, from: usize, to: usize) -> (r: Vec<char>)
    requires
        from <= to <= v@.len(),
    ensures
        r@ == v@.subrange(from as int, to as int),
{
    let mut r: Vec<char> = Vec::new();
    let mut i: usize = from;
    assert(r@ =~= v@.subrange(from as int, from as int));
    while i < to
        invariant
            from <= i <= to <= v@.len(),
            r@ == v@.subrange(from as int, i as int),
        decreases to - i,
    {
        r.push(v[i]);
        i += 1;
        assert(r@ =~= v@.subrange(from as int, i as int));
    }
    r
}

fn at(v: &Vec<char>, part: &Vec<char>, i: usize) -> (r: bool)
    requires
        i + part@.len() <= v@.len(),
    ensures
        r == stands_at(v@, part@, i as int),
{
    let n = v.len();
    let mut k: usize = 0;
    while k < part.len()
        invariant
            k <= part@.len(),
            n == v@.len(),
            i + part@.len() <= n,
            forall|j: int| 0 <= j < k ==> v@[i + j] == part@[j],
        decreases part@.len() - k,
    {
        if v[i + k] != part[k] {
            assert(v@.subrange(i as int, i + part@.len())[k as int] != part@[k as int]);
            return false;
        }
        k += 1;
    }
    assert(v@.subrange(i as int, i + part@.len()) =~= part@);
    true
}

/// Finds `part` in `v` from a position on.
pub fn find_from(v: &Vec<char>, part: &str, from: usize) -> (r: Option<usize>)
    requires
        from <= v@.len(),
    ensures
        match position(v@, part@, from as int) {
            Some(i) => r == Some(i as usize) && 0 <= i && i + part@.len() <= v@.len(),
            None => r is None,
        },
{
    let p = chars_of(part);
    let mut i: usize = from;
    loop
        invariant
            p@ == part@,
            from <= i <= v@.len(),
            position(v@, part@, from as int) == position(v@, part@, i as int),
        decreases v@.len() - i,
    {
        if p.len() > v.len() - i {
            return None;
        }
        if at(v, &p, i) {
            return Some(i);
        }
        if i == v.len() {
            assert(p@.len() == 0);
            assert(v@.subrange(i as int, i as int) =~= part@);
            return None;
        }
        i += 1;
    }
}

/// Whether `part` occurs in `v`.
pub fn has_part(v: &Vec<char>, part: &str) -> (r: bool)
    ensures
        r == (position(v@, part@, 0) is Some),
{
    find_from(v, part, 0).is_some()
}

/// Whether `v` begins with `part`.
pub fn begins(v: &Vec<char>, part: &str) -> (r: bool)
    ensures
        r == stands_at(v@, part@, 0),
{
    let p = chars_of(part);
    if p.len() > v.len() {
        false
    } else {
        at(v, &p, 0)
    }
}

/// Whether `v` is the text `lit`.
pub fn is_text(v: &Vec<char>, lit: &str) -> (r: bool)
    ensures
        r == (v@ == lit@),
{
    let p = chars_of(lit);
    if p.len() != v.len() {
        false
    } else {
        let r = at(v, &p, 0);
        assert(v@.subrange(0, v@.len() as int) =~= v@);
        r
    }
}

proof fn lemma_front(s: Seq<char>, i: int)
    requires
        0 <= i <= s.len(),
        forall|j: int| 0 <= j < i ==> white(#[trigger] s[j]),
    ensures
        trimmed_front(s) == trimmed_front(s.subrange(i, s.len() as int)),
    decreases i,
{
    if i > 0 {
        let t = s.subrange(1, s.len() as int);
        assert forall|j: int| 0 <= j < i - 1 implies white(#[trigger] t[j]) by {
            assert(t[j] == s[j + 1]);
        }
        assert(white(s[0]));
        lemma_front(t, i - 1);
        assert(t.subrange(i - 1, t.len() as int) =~= s.subrange(i, s.len() as int));
    } else {
        assert(s.subrange(0, s.len() as int) =~= s);
    }
}

proof fn lemma_back(s: Seq<char>, k: int)
    requires
        0 <= k <= s.len(),
        forall|j: int| k <= j < s.len() ==> white(#[trigger] s[j]),
    ensures
        trimmed_back(s) == trimmed_back(s.take(k)),
    decreases s.len() - k,
{
    if k < s.len() {
        let t = s.drop_last();
        assert(white(s[s.len() - 1]));
        lemma_back(t, k);
        assert(t.take(k) =~= s.take(k));
    } else {
        assert(s.take(k) =~= s);
    }
}

/// Cuts the white space at both ends.
pub fn trim(v: &Vec<char>) -> (r: Vec<char>)
    ensures
        r@ == trimmed(v@),
{
    let mut i: usize = 0;
    while i < v.len() && is_white(v[i])
        invariant
            i <= v@.len(),
            forall|j: int| 0 <= j < i ==> white(#[trigger] v@[j]),
        decreases v@.len() - i,
    {
        i += 1;
    }
    let mut k: usize = v.len();
    while k > i && is_white(v[k - 1])
        invariant
            i <= k <= v@.len(),
            forall|j: int| k <= j < v@.len() ==> white(#[trigger] v@[j]),
        decreases k,
    {
        k -= 1;
    }
    proof {
        lemma_front(v@, i as int);
        let f = v@.subrange(i as int, v@.len() as int);
        assert(trimmed_front(f) == f);
        assert forall|j: int| k - i <= j < f.len() implies white(#[trigger] f[j]) by {
            assert(f[j] == v@[i + j]);
        }
        lemma_back(f, k - i);
        assert(f.take(k - i) =~= v@.subrange(i as int, k as int));
        assert(trimmed_back(f.take(k - i)) == f.take(k - i));
    }
    slice(v, i, k)
}

proof fn lemma_unquote_front(s: Seq<char>, q: char, i: int)
    requires
        0 <= i <= s.len(),
        forall|j: int| 0 <= j < i ==> #[trigger] s[j] == q,
    ensures
        unquoted_front(s, q) == unquoted_front(s.subrange(i, s.len() as int), q),
    decreases i,
{
    if i > 0 {
        let t = s.subrange(1, s.len() as int);
        assert(s[0] == q);
        assert forall|j: int| 0 <= j < i - 1 implies #[trigger] t[j] == q by {
            assert(t[j] == s[j + 1]);
        }
        lemma_unquote_front(t, q, i - 1);
        assert(t.subrange(i - 1, t.len() as int) =~= s.subrange(i, s.len() as int));
    } else {
        assert(s.subrange(0, s.len() as int) =~= s);
    }
}

proof fn lemma_unquote_back(s: Seq<char>, q: char, k: int)
    requires
        0 <= k <= s.len(),
        forall|j: int| k <= j < s.len() ==> #[trigger] s[j] == q,
    ensures
        unquoted_back(s, q) == unquoted_back(s.take(k), q),
    decreases s.len() - k,
{
    if k < s.len() {
        let t = s.drop_last();
        assert(s[s.len() - 1] == q);
        lemma_unquote_back(t, q, k);
        assert(t.take(k) =~= s.take(k));
    } else {
        assert(s.take(k) =~= s);
    }
}

/// Cuts the characters `q` at both ends.
pub fn unquote(v: &Vec<char>, q: char) -> (r: Vec<char>)
    ensures
        r@ == unquoted(v@, q),
{
    let mut i: usize = 0;
    while i < v.len() && v[i] == q
        invariant
            i <= v@.len(),
            forall|j: int| 0 <= j < i ==> #[trigger] v@[j] == q,
        decreases v@.len() - i,
    {
        i += 1;
    }
    let mut k: usize = v.len();
    while k > i && v[k - 1] == q
        invariant
            i <= k <= v@.len(),
            forall|j: int| k <= j < v@.len() ==> #[trigger] v@[j] == q,
        decreases k,
    {
        k -= 1;
    }
    proof {
        lemma_unquote_front(v@, q, i as int);
        let f = v@.subrange(i as int, v@.len() as int);
        assert(unquoted_front(f, q) == f);
        assert forall|j: int| k - i <= j < f.len() implies #[trigger] f[j] == q by {
            assert(f[j] == v@[i + j]);
        }
        lemma_unquote_back(f, q, k - i);
        assert(f.take(k - i) =~= v@.subrange(i as int, k as int));
        assert(unquoted_back(f.take(k - i), q) == f.take(k - i));
    }
    slice(v, i, k)
}

proof fn lemma_parts_nonempty(s: Seq<char>, c: char)
    ensures
        parts(s, c).len() >= 1,
    decreases s.len(),
{
    if s.len() > 0 {
        lemma_parts_nonempty(s.drop_last(), c);
    }
}

/// Cuts a text at each separator.
pub fn split(v: &Vec<char>, c: char) -> (r: Vec<Vec<char>>)
    ensures
        views(r@) == parts(v@, c),
        r@.len() >= 1,
{
    let mut done: Vec<Vec<char>> = Vec::new();
    let mut cur: Vec<char> = Vec::new();
    let mut i: usize = 0;
    assert(v@.take(0) =~= Seq::<char>::empty());
    assert(views(done@).push(cur@) =~= parts(v@.take(0), c));
    while i < v.len()
        invariant
            i <= v@.len(),
            views(done@).push(cur@) == parts(v@.take(i as int), c),
        decreases v@.len() - i,
    {
        let ghost so_far = parts(v@.take(i as int), c);
        let ghost d0 = done@;
        let ghost c0 = cur@;
        assert(v@.take(i + 1).drop_last() =~= v@.take(i as int));
        assert(v@.take(i + 1).last() == v@[i as int]);
        if v[i] == c {
            let mut fresh: Vec<char> = Vec::new();
            std::mem::swap(&mut fresh, &mut cur);
            done.push(fresh);
            assert(views(done@) =~= views(d0).push(c0));
            assert(views(done@).push(cur@) =~= so_far.push(Seq::empty()));
        } else {
            cur.push(v[i]);
            assert(so_far.last() == c0);
            assert(views(done@).push(cur@) =~= so_far.update(so_far.len() - 1, so_far.last().push(v@[i as int])));
        }
        i += 1;
    }
    assert(v@.take(i as int) =~= v@);
    let ghost d1 = done@;
    let ghost c1 = cur@;
    done.push(cur);
    assert(views(done@) =~= views(d1).push(c1));
    done
}

/// Cuts a text into lines.
pub fn split_lines(v: &Vec<char>) -> (r: Vec<Vec<char>>)
    ensures
        views(r@) == lines(v@),
{
    let all = split(v, '\n');
    let n = all.len();
    let ghost av = views(all@);
    assert(av.last() == all@[n - 1]@);
    let m: usize = if all[n - 1].len() == 0 { n - 1 } else { n };
    let mut r: Vec<Vec<char>> = Vec::new();
    let mut i: usize = 0;
    while i < m
        invariant
            i <= m <= n,
            n == all@.len(),
            av == views(all@),
            n >= 1,
            m == (if av.last().len() == 0 { n - 1 } else { n as int }),
            r@.len() == i,
            forall|j: int| 0 <= j < i ==> (#[trigger] r@[j])@ == (if j == n - 1 { av[j] } else { without_return(av[j]) }),
        decreases m - i,
    {
        let line = &all[i];
        assert(line@ == av[i as int]);
        let k = line.len();
        let piece = if i != n - 1 && k > 0 && line[k - 1] == '\r' {
            assert(line@.subrange(0, k - 1) =~= line@.drop_last());
            slice(line, 0, k - 1)
        } else {
            assert(line@.subrange(0, k as int) =~= line@);
            slice(line, 0, k)
        };
        r.push(piece);
        i += 1;
    }
    assert(views(r@) =~= lines(v@));
    r
}

} // verus!
