//! Ascending lists of the members of finite sets.
use vstd::prelude::*;
use crate::text::{ascending, before, law_text_order};

verus! {

/// Whether numbers stand in strictly ascending order.
pub open spec fn rising(s: Seq<usize>) -> bool {
    forall|i: int, j: int| 0 <= i < j < s.len() ==> (#[trigger] s[i]) < (#[trigger] s[j])
}

/// Whether `r` lists exactly the members of `s`, ascending.
pub open spec fn lists_ids(r: Seq<usize>, s: Set<usize>) -> bool {
    rising(r) && forall|k: usize| #[trigger] r.contains(k) <==> s.contains(k)
}

/// The members of a finite set of numbers, ascending.
pub open spec fn sorted_ids(s: Set<usize>) -> Seq<usize> {
    choose|r: Seq<usize>| lists_ids(r, s)
}

/// Whether `r` lists exactly the members of `s`, ascending.
pub open spec fn lists_texts(r: Seq<Seq<char>>, s: Set<Seq<char>>) -> bool {
    ascending(r) && forall|k: Seq<char>| #[trigger] r.contains(k) <==> s.contains(k)
}

/// The members of a finite set of texts, ascending.
pub open spec fn sorted_texts(s: Set<Seq<char>>) -> Seq<Seq<char>> {
    choose|r: Seq<Seq<char>>| lists_texts(r, s)
}

proof fn lemma_ids_unique(a: Seq<usize>, b: Seq<usize>)
    requires
        rising(a),
        rising(b),
        forall|k: usize| a.contains(k) <==> b.contains(k),
    ensures
        a == b,
    decreases a.len(),
{
    if a.len() == 0 {
        if b.len() > 0 {
            assert(b.contains(b[0]));
            assert(a.contains(b[0]));
        }
        assert(a =~= b);
    } else {
        assert(a.contains(a[0]));
        assert(b.len() > 0);
        let x = a.last();
        let y = b.last();
        assert(a.contains(x));
        assert(b.contains(y));
        let i = choose|i: int| 0 <= i < b.len() && b[i] == x;
        let j = choose|j: int| 0 <= j < a.len() && a[j] == y;
        assert(x == y) by {
            if i < b.len() - 1 {
                assert(b[i] < b[b.len() - 1]);
            }
            if j < a.len() - 1 {
                assert(a[j] < a[a.len() - 1]);
            }
        }
        let c = a.drop_last();
        let d = b.drop_last();
        assert forall|k: usize| c.contains(k) <==> d.contains(k) by {
            if c.contains(k) {
                let m = choose|m: int| 0 <= m < c.len() && c[m] == k;
                assert(a[m] == k && a[m] < a[a.len() - 1]);
                assert(a.contains(k));
                let n = choose|n: int| 0 <= n < b.len() && b[n] == k;
                assert(d[n] == k);
            }
            if d.contains(k) {
                let m = choose|m: int| 0 <= m < d.len() && d[m] == k;
                assert(b[m] == k && b[m] < b[b.len() - 1]);
                assert(b.contains(k));
                let n = choose|n: int| 0 <= n < a.len() && a[n] == k;
                assert(c[n] == k);
            }
        }
        lemma_ids_unique(c, d);
        assert(a =~= c.push(x));
        assert(b =~= d.push(y));
    }
}

/// An ascending list of the members is the ascending list of the members.
pub proof fn lemma_sorted_ids(r: Seq<usize>, s: Set<usize>)
    requires
        lists_ids(r, s),
    ensures
        r == sorted_ids(s),
{
    let t = sorted_ids(s);
    assert(lists_ids(t, s));
    assert forall|k: usize| r.contains(k) <==> t.contains(k) by {
        assert(s.contains(k) == r.contains(k));
        assert(s.contains(k) == t.contains(k));
    }
    lemma_ids_unique(r, t);
}

proof fn lemma_texts_unique(a: Seq<Seq<char>>, b: Seq<Seq<char>>)
    requires
        ascending(a),
        ascending(b),
        forall|k: Seq<char>| a.contains(k) <==> b.contains(k),
    ensures
        a == b,
    decreases a.len(),
{
    if a.len() == 0 {
        if b.len() > 0 {
            assert(b.contains(b[0]));
            assert(a.contains(b[0]));
        }
        assert(a =~= b);
    } else {
        assert(a.contains(a[0]));
        assert(b.len() > 0);
        let x = a.last();
        let y = b.last();
        assert(a.contains(x));
        assert(b.contains(y));
        let i = choose|i: int| 0 <= i < b.len() && b[i] == x;
        let j = choose|j: int| 0 <= j < a.len() && a[j] == y;
        assert(x == y) by {
            law_text_order(x, y);
            if i < b.len() - 1 {
                assert(before(b[i], b[b.len() - 1]));
            }
            if j < a.len() - 1 {
                assert(before(a[j], a[a.len() - 1]));
            }
        }
        let c = a.drop_last();
        let d = b.drop_last();
        assert forall|k: Seq<char>| c.contains(k) <==> d.contains(k) by {
            law_text_order(k, x);
            law_text_order(x, x);
            if c.contains(k) {
                let m = choose|m: int| 0 <= m < c.len() && c[m] == k;
                assert(a[m] == k && before(a[m], a[a.len() - 1]));
                assert(a.contains(k));
                let n = choose|n: int| 0 <= n < b.len() && b[n] == k;
                assert(d[n] == k);
            }
            if d.contains(k) {
                let m = choose|m: int| 0 <= m < d.len() && d[m] == k;
                assert(b[m] == k && before(b[m], b[b.len() - 1]));
                assert(b.contains(k));
                let n = choose|n: int| 0 <= n < a.len() && a[n] == k;
                assert(c[n] == k);
            }
        }
        lemma_texts_unique(c, d);
        assert(a =~= c.push(x));
        assert(b =~= d.push(y));
    }
}

/// An ascending list of the members is the ascending list of the members.
pub proof fn lemma_sorted_texts(r: Seq<Seq<char>>, s: Set<Seq<char>>)
    requires
        lists_texts(r, s),
    ensures
        r == sorted_texts(s),
{
    let t = sorted_texts(s);
    assert(lists_texts(t, s));
    assert forall|k: Seq<char>| r.contains(k) <==> t.contains(k) by {
        assert(s.contains(k) == r.contains(k));
        assert(s.contains(k) == t.contains(k));
    }
    lemma_texts_unique(r, t);
}

/// Enters a number into an ascending list, unless it is there already.
pub fn insert_id(v: &mut Vec<usize>, x: usize)
    requires
        rising(old(v)@),
    ensures
        rising(final(v)@),
        forall|k: usize| final(v)@.contains(k) <==> old(v)@.contains(k) || k == x,
{
    let ghost o = v@;
    let mut i: usize = 0;
    while i < v.len() && v[i] < x
        invariant
            v@ == o,
            i <= o.len(),
            forall|j: int| 0 <= j < i ==> #[trigger] o[j] < x,
        decreases o.len() - i,
    {
        i += 1;
    }
    if i < v.len() && v[i] == x {
        assert(o[i as int] == x);
        return;
    }
    v.insert(i, x);
    proof {
        let n = v@;
        assert(n =~= o.insert(i as int, x));
        assert forall|a: int, b: int| 0 <= a < b < n.len() implies (#[trigger] n[a]) < (#[trigger] n[b]) by {
            if b < i {
                assert(o[a] < o[b]);
            } else if b == i {
                assert(o[a] < x);
            } else if a < i {
                assert(o[a] < o[b - 1]);
            } else if a == i {
                assert(x < o[i as int]);
                if b - 1 > i {
                    assert(o[i as int] < o[b - 1]);
                }
            } else {
                assert(o[a - 1] < o[b - 1]);
            }
        }
        assert forall|t: usize| n.contains(t) <==> o.contains(t) || t == x by {
            if n.contains(t) {
                let k = choose|k: int| 0 <= k < n.len() && n[k] == t;
                if k < i {
                    assert(o[k] == t);
                } else if k > i {
                    assert(o[k - 1] == t);
                }
            }
            if o.contains(t) {
                let k = choose|k: int| 0 <= k < o.len() && o[k] == t;
                if k < i {
                    assert(n[k] == t);
                } else {
                    assert(n[k + 1] == t);
                }
            }
            if t == x {
                assert(n[i as int] == t);
            }
        }
    }
}

/// The members of a list, ascending.
pub fn sort_ids(v: &Vec<usize>) -> (r: Vec<usize>)
    ensures
        lists_ids(r@, v@.to_set()),
        r@ == sorted_ids(v@.to_set()),
{
    let mut r: Vec<usize> = Vec::new();
    let mut i: usize = 0;
    while i < v.len()
        invariant
            i <= v@.len(),
            rising(r@),
            forall|k: usize| #[trigger] r@.contains(k) <==> v@.take(i as int).contains(k),
        decreases v@.len() - i,
    {
        let ghost seen = v@.take(i as int);
        let x = v[i];
        let ghost before_r = r@;
        insert_id(&mut r, x);
        i += 1;
        proof {
            assert(v@.take(i as int) =~= seen.push(x));
            assert forall|k: usize| #[trigger] r@.contains(k) <==> v@.take(i as int).contains(k) by {
                assert(before_r.contains(k) <==> seen.contains(k));
                lemma_push_contains(seen, x, k);
            }
        }
    }
    proof {
        assert(v@.take(i as int) =~= v@);
        assert(lists_ids(r@, v@.to_set()));
        lemma_sorted_ids(r@, v@.to_set());
    }
    r
}

/// What a longer sequence contains.
pub proof fn lemma_push_contains<A>(s: Seq<A>, x: A, y: A)
    ensures
        s.push(x).contains(y) == (s.contains(y) || y == x),
{
    let p = s.push(x);
    if s.contains(y) {
        let i = choose|i: int| 0 <= i < s.len() && s[i] == y;
        assert(p[i] == y);
    }
    if y == x {
        assert(p[s.len() as int] == y);
    }
    if p.contains(y) {
        let i = choose|i: int| 0 <= i < p.len() && p[i] == y;
        if i < s.len() {
            assert(s[i] == y);
        }
    }
}

} // verus!
