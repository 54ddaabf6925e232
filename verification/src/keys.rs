//! The keys of values, for `for`-`in` and `Object.getOwnPropertyNames`.
use vstd::prelude::*;
use crate::listing::{lemma_push_contains, lemma_sorted_texts, sort_ids, sorted_ids, sorted_texts};
use crate::object::{array_at, element};
use crate::own::table_of;
use crate::store::{Store, StoreView};
use crate::atoms::same_text;
use crate::text::{ascending, chars_of, decimal, decimal_text, insert_text, law_text_order, owned, texts};
use crate::value::{is_symbol_key, symbol_key, ArrayDataView, Cell, Value};

verus! {

/// Whether a text is an own enumerable key of a cell, and no symbol. The slot of a
/// wrapped primitive does not count.
pub open spec fn own_enumerable(s: StoreView, c: usize, t: Seq<char>) -> bool {
    !symbol_key(t) && exists|k: usize| #[trigger] s.heap.props(c).contains_key(k) && k != s.n.boxed && s.heap.props(c)[k].enumerable && s.text(k) == t
}

/// Whether a text is the key of an element of an array.
pub open spec fn element_key(d: ArrayDataView, t: Seq<char>) -> bool {
    exists|i: usize| ((i < d.length && element(d, i) is Some) || d.sparse.contains_key(i)) && #[trigger] decimal(i as nat) == t
}

/// Whether a text is an enumerable slot of an array, and no symbol.
pub open spec fn array_slot_key(s: StoreView, a: usize, t: Seq<char>) -> bool {
    !symbol_key(t) && exists|k: usize| #[trigger] s.heap.props(a).contains_key(k) && s.heap.props(a)[k].enumerable && s.text(k) == t
}

/// Whether `for`-`in` visits a key that the value itself has. It visits nothing of a
/// function, a promise or a primitive that is no string.
pub open spec fn visits(s: StoreView, base: Value, t: Seq<char>) -> bool {
    match base {
        Value::Array(a) => match array_at(s.heap, a) {
            Some(d) => element_key(d, t) || array_slot_key(s, a, t),
            None => array_slot_key(s, a, t),
        },
        Value::String(x) => exists|i: nat| i < s.text(x).len() && #[trigger] decimal(i) == t,
        Value::Object(o) => own_enumerable(s, o, t),
        _ => false,
    }
}

/// Whether a value itself has a key, enumerable or not, and so hides what it inherits
/// under it.
pub open spec fn hides(s: StoreView, base: Value, t: Seq<char>) -> bool {
    visits(s, base, t) || (match base {
        Value::Array(a) => t == "length"@ || names_slot(s, a, true, t),
        Value::String(_) => t == "length"@,
        Value::Object(o) => names_slot(s, o, true, t),
        _ => false,
    })
}

/// The first ancestor whose keys `for`-`in` visits.
pub open spec fn visited_parent(s: StoreView, base: Value) -> Option<usize> {
    match base {
        Value::Array(_) => Some(s.b.array_prototype),
        Value::String(_) => Some(s.b.string_prototype),
        Value::Object(o) => s.heap.proto(o),
        _ => None,
    }
}

/// The enumerable keys along a chain, those of nearer objects first. A key that a
/// nearer object has, among them those of `had`, is not visited again.
pub open spec fn inherited_keys(s: StoreView, cur: Option<usize>, had: Set<Seq<char>>, fuel: nat) -> Seq<Seq<char>>
    decreases fuel,
{
    match cur {
        None => Seq::empty(),
        Some(c) => if fuel == 0 {
            Seq::empty()
        } else {
            sorted_texts(Set::new(|t: Seq<char>| own_enumerable(s, c, t) && !had.contains(t))) + inherited_keys(
                s,
                s.heap.proto(c),
                had.union(Set::new(|t: Seq<char>| names_slot(s, c, true, t))),
                (fuel - 1) as nat,
            )
        },
    }
}

/// The keys that `for`-`in` visits: the enumerable keys of the value, then those of each
/// of its ancestors that nothing nearer has. Those of one object are in ascending order
/// of their texts.
pub open spec fn visited_keys(s: StoreView, base: Value) -> Seq<Seq<char>> {
    sorted_texts(Set::new(|t: Seq<char>| visits(s, base, t))) + inherited_keys(
        s,
        visited_parent(s, base),
        Set::new(|t: Seq<char>| hides(s, base, t)),
        s.heap.cells.len(),
    )
}

/// The texts of the first numbers.
pub open spec fn index_texts(n: nat) -> Seq<Seq<char>> {
    Seq::new(n, |i: int| decimal(i as nat))
}

/// The texts of numbers.
pub open spec fn decimals(s: Seq<usize>) -> Seq<Seq<char>> {
    s.map_values(|i: usize| decimal(i as nat))
}

/// Whether a text is an own key of a cell, and no symbol. The marks of wrapped primitives
/// and of errors count only where `marks` holds.
pub open spec fn names_slot(s: StoreView, c: usize, marks: bool, t: Seq<char>) -> bool {
    !symbol_key(t) && exists|k: usize| #[trigger] s.heap.props(c).contains_key(k) && (marks || (k != s.n.boxed && k != s.n.error_data)) && s.text(k) == t
}

/// The own keys of a cell, ascending.
pub open spec fn slot_names(s: StoreView, c: usize, marks: bool) -> Seq<Seq<char>> {
    sorted_texts(Set::new(|t: Seq<char>| names_slot(s, c, marks, t)))
}

/// The own keys of a value that are symbols.
pub open spec fn own_symbols(s: StoreView, base: Value) -> Set<usize> {
    match table_of(base) {
        Some(i) => Set::new(|k: usize| s.heap.props(i).contains_key(k) && symbol_key(s.text(k))),
        None => Set::empty(),
    }
}

/// The own keys of a value that are no symbols.
pub open spec fn own_names(s: StoreView, base: Value) -> Seq<Seq<char>> {
    match base {
        Value::Array(a) => match array_at(s.heap, a) {
            Some(d) => seq!["length"@] + index_texts(d.elems.len()) + decimals(sorted_ids(d.sparse.dom())) + slot_names(s, a, false),
            None => seq!["length"@] + slot_names(s, a, false),
        },
        Value::String(x) => seq!["length"@] + index_texts(s.text(x).len()),
        Value::Promise(p) => slot_names(s, p, true),
        _ => match table_of(base) {
            Some(i) => slot_names(s, i, false),
            None => Seq::empty(),
        },
    }
}

fn push_indices(out: &mut Vec<String>, n: usize)
    ensures
        texts(final(out)@) == texts(old(out)@) + index_texts(n as nat),
{
    let ghost before = texts(out@);
    let mut i: usize = 0;
    assert(texts(out@) =~= before + index_texts(0));
    while i < n
        invariant
            i <= n,
            texts(out@) == before + index_texts(i as nat),
        decreases n - i,
    {
        let ghost held = out@;
        let t = decimal_text(i as u64);
        out.push(t);
        i += 1;
        assert(texts(out@) =~= texts(held).push(t@));
        assert(before + index_texts(i as nat) =~= (before + index_texts((i - 1) as nat)).push(t@));
    }
}

fn push_numbers(out: &mut Vec<String>, ids: &Vec<usize>)
    ensures
        texts(final(out)@) == texts(old(out)@) + decimals(ids@),
{
    let ghost before = texts(out@);
    let mut i: usize = 0;
    assert(texts(out@) =~= before + decimals(ids@.take(0)));
    while i < ids.len()
        invariant
            i <= ids@.len(),
            texts(out@) == before + decimals(ids@.take(i as int)),
        decreases ids@.len() - i,
    {
        let ghost held = out@;
        let t = decimal_text(ids[i] as u64);
        out.push(t);
        i += 1;
        assert(texts(out@) =~= texts(held).push(t@));
        assert(before + decimals(ids@.take(i as int)) =~= (before + decimals(ids@.take(i - 1))).push(t@));
    }
    assert(ids@.take(i as int) =~= ids@);
}

fn push_all(out: &mut Vec<String>, more: Vec<String>)
    ensures
        texts(final(out)@) == texts(old(out)@) + texts(more@),
{
    let ghost before = out@;
    let mut rest = more;
    out.append(&mut rest);
    assert(texts(out@) =~= texts(before) + texts(more@));
}

proof fn lemma_push_text(s: Seq<Seq<char>>, x: Seq<char>, t: Seq<char>)
    ensures
        s.push(x).contains(t) <==> s.contains(t) || t == x,
{
    if s.contains(t) {
        let i = choose|i: int| 0 <= i < s.len() && s[i] == t;
        assert(s.push(x)[i] == t);
    }
    if t == x {
        assert(s.push(x)[s.len() as int] == t);
    }
}

proof fn lemma_sum_contains(a: Seq<Seq<char>>, b: Seq<Seq<char>>, t: Seq<char>)
    ensures
        (a + b).contains(t) <==> a.contains(t) || b.contains(t),
{
    if a.contains(t) {
        let i = choose|i: int| 0 <= i < a.len() && a[i] == t;
        assert((a + b)[i] == t);
    }
    if b.contains(t) {
        let i = choose|i: int| 0 <= i < b.len() && b[i] == t;
        assert((a + b)[a.len() + i] == t);
    }
}

proof fn lemma_ascending_distinct(s: Seq<Seq<char>>)
    requires
        ascending(s),
    ensures
        s.no_duplicates(),
{
    assert forall|i: int, j: int| 0 <= i < j < s.len() implies s[i] != s[j] by {
        law_text_order(s[i], s[j]);
    }
}

proof fn lemma_enumerable_named(s: StoreView, c: usize, t: Seq<char>)
    requires
        own_enumerable(s, c, t),
    ensures
        names_slot(s, c, true, t),
{
}

fn holds_text(list: &Vec<String>, t: &str) -> (r: bool)
    ensures
        r == texts(list@).contains(t@),
{
    let mut i: usize = 0;
    while i < list.len()
        invariant
            i <= list@.len(),
            forall|j: int| 0 <= j < i ==> #[trigger] texts(list@)[j] != t@,
        decreases list@.len() - i,
    {
        assert(texts(list@)[i as int] == list@[i as int]@);
        if same_text(list[i].as_str(), t) {
            return true;
        }
        i += 1;
    }
    false
}

fn add_text(list: &mut Vec<String>, t: &str)
    ensures
        forall|x: Seq<char>| #[trigger] texts(final(list)@).contains(x) <==> texts(old(list)@).contains(x) || x == t@,
{
    let ghost before = texts(list@);
    list.push(owned(t));
    proof {
        assert(texts(list@) =~= before.push(t@));
        assert forall|x: Seq<char>| #[trigger] texts(list@).contains(x) <==> before.contains(x) || x == t@ by {
            lemma_push_text(before, t@, x);
        }
    }
}

fn add_texts(list: &mut Vec<String>, more: &Vec<String>)
    ensures
        forall|x: Seq<char>| #[trigger] texts(final(list)@).contains(x) <==> texts(old(list)@).contains(x) || texts(more@).contains(x),
{
    let ghost before = texts(list@);
    let ghost all = texts(more@);
    let mut i: usize = 0;
    while i < more.len()
        invariant
            i <= more@.len(),
            all == texts(more@),
            forall|x: Seq<char>| #[trigger] texts(list@).contains(x) <==> before.contains(x) || all.take(i as int).contains(x),
        decreases more@.len() - i,
    {
        let ghost held = texts(list@);
        let ghost seen = all.take(i as int);
        add_text(list, more[i].as_str());
        i += 1;
        proof {
            let t = more@[i - 1]@;
            assert(all.take(i as int) =~= seen.push(t));
            assert forall|x: Seq<char>| #[trigger] texts(list@).contains(x) <==> before.contains(x) || all.take(i as int).contains(x) by {
                assert(held.contains(x) <==> before.contains(x) || seen.contains(x));
                lemma_push_text(seen, t, x);
            }
        }
    }
    assert(all.take(i as int) =~= all);
}

/// Enters the texts of the first `n` numbers into an ascending list.
fn enter_indices(out: &mut Vec<String>, n: usize)
    requires
        ascending(texts(old(out)@)),
    ensures
        ascending(texts(final(out)@)),
        forall|t: Seq<char>| #[trigger] texts(final(out)@).contains(t) <==> texts(old(out)@).contains(t) || exists|i: nat| i < n && #[trigger] decimal(i) == t,
{
    let ghost before = texts(out@);
    let mut i: usize = 0;
    while i < n
        invariant
            i <= n,
            ascending(texts(out@)),
            forall|t: Seq<char>| #[trigger] texts(out@).contains(t) <==> before.contains(t) || exists|j: nat| j < i && #[trigger] decimal(j) == t,
        decreases n - i,
    {
        let ghost held = texts(out@);
        insert_text(out, decimal_text(i as u64));
        i += 1;
        proof {
            assert forall|t: Seq<char>| #[trigger] texts(out@).contains(t) <==> before.contains(t) || exists|j: nat| j < i && #[trigger] decimal(j) == t by {
                assert(held.contains(t) <==> before.contains(t) || exists|j: nat| j < i - 1 && #[trigger] decimal(j) == t);
                if exists|j: nat| j < i && #[trigger] decimal(j) == t {
                    let j = choose|j: nat| j < i && #[trigger] decimal(j) == t;
                    if j < i - 1 {
                        assert(decimal(j) == t);
                    }
                }
                if t == decimal((i - 1) as nat) {
                    assert(decimal((i - 1) as nat) == t);
                }
            }
        }
    }
}

impl<'a> Store<'a> {
    /// Enters the own enumerable keys of a cell into an ascending list.
    fn enter_enumerable(&self, c: usize, skip_boxed: bool, out: &mut Vec<String>)
        requires
            ascending(texts(old(out)@)),
        ensures
            ascending(texts(final(out)@)),
            skip_boxed ==> forall|t: Seq<char>| #[trigger] texts(final(out)@).contains(t) <==> texts(old(out)@).contains(t) || own_enumerable(self@, c, t),
            !skip_boxed ==> forall|t: Seq<char>| #[trigger] texts(final(out)@).contains(t) <==> texts(old(out)@).contains(t) || array_slot_key(self@, c, t),
    {
        let keys = self.heap.prop_keys(c);
        let ghost before = texts(out@);
        let ghost s = self@;
        let ghost counts = |k: usize| s.heap.props(c).contains_key(k) && !(skip_boxed && k == s.n.boxed) && s.heap.props(c)[k].enumerable && !symbol_key(s.text(k));
        let mut i: usize = 0;
        while i < keys.len()
            invariant
                i <= keys@.len(),
                s == self@,
                counts == (|k: usize| s.heap.props(c).contains_key(k) && !(skip_boxed && k == s.n.boxed) && s.heap.props(c)[k].enumerable && !symbol_key(s.text(k))),
                forall|k: usize| keys@.contains(k) <==> s.heap.props(c).contains_key(k),
                ascending(texts(out@)),
                forall|t: Seq<char>| #[trigger] texts(out@).contains(t) <==> before.contains(t) || exists|k: usize| keys@.take(i as int).contains(k) && #[trigger] counts(k) && s.text(k) == t,
            decreases keys@.len() - i,
        {
            let k = keys[i];
            let ghost held = texts(out@);
            let ghost seen = keys@.take(i as int);
            assert(keys@.contains(k));
            let mut added = false;
            match self.heap.get_prop(c, k) {
                Some(p) => {
                    if p.enumerable && !(skip_boxed && k == self.n.boxed) && !is_symbol_key(self.heap.atoms.text(k)) {
                        insert_text(out, owned(self.heap.atoms.text(k)));
                        added = true;
                    }
                },
                None => {},
            }
            i += 1;
            proof {
                assert(keys@.take(i as int) =~= seen.push(k));
                assert(added == counts(k));
                assert forall|t: Seq<char>| #[trigger] texts(out@).contains(t) <==> before.contains(t) || exists|q: usize| keys@.take(i as int).contains(q) && #[trigger] counts(q) && s.text(q) == t by {
                    assert(held.contains(t) <==> before.contains(t) || exists|q: usize| seen.contains(q) && #[trigger] counts(q) && s.text(q) == t);
                    if exists|q: usize| seen.contains(q) && #[trigger] counts(q) && s.text(q) == t {
                        let q = choose|q: usize| seen.contains(q) && #[trigger] counts(q) && s.text(q) == t;
                        lemma_push_contains(seen, k, q);
                        assert(counts(q));
                    }
                    if exists|q: usize| seen.push(k).contains(q) && #[trigger] counts(q) && s.text(q) == t {
                        let q = choose|q: usize| seen.push(k).contains(q) && #[trigger] counts(q) && s.text(q) == t;
                        lemma_push_contains(seen, k, q);
                    }
                    if added && s.text(k) == t {
                        lemma_push_contains(seen, k, k);
                        assert(counts(k));
                    }
                }
            }
        }
        proof {
            assert(keys@.take(i as int) =~= keys@);
            assert forall|t: Seq<char>| #[trigger] texts(out@).contains(t) <==> before.contains(t) || (if skip_boxed { own_enumerable(s, c, t) } else { array_slot_key(s, c, t) }) by {
                if exists|q: usize| keys@.contains(q) && #[trigger] counts(q) && s.text(q) == t {
                    let q = choose|q: usize| keys@.contains(q) && #[trigger] counts(q) && s.text(q) == t;
                    assert(s.heap.props(c).contains_key(q));
                }
                if skip_boxed && own_enumerable(s, c, t) {
                    let q = choose|q: usize| #[trigger] s.heap.props(c).contains_key(q) && q != s.n.boxed && s.heap.props(c)[q].enumerable && s.text(q) == t;
                    assert(keys@.contains(q) && counts(q));
                }
                if !skip_boxed && array_slot_key(s, c, t) {
                    let q = choose|q: usize| #[trigger] s.heap.props(c).contains_key(q) && s.heap.props(c)[q].enumerable && s.text(q) == t;
                    assert(keys@.contains(q) && counts(q));
                }
            }
        }
    }

    fn enter_elements(&self, a: usize, out: &mut Vec<String>)
        requires
            ascending(texts(old(out)@)),
        ensures
            ascending(texts(final(out)@)),
            forall|t: Seq<char>| #[trigger] texts(final(out)@).contains(t) <==> texts(old(out)@).contains(t) || (array_at(self@.heap, a) is Some && element_key(array_at(self@.heap, a)->0, t)),
    {
        let ghost s = self@;
        let ghost before = texts(out@);
        if a < self.heap.cells.len() {
            assert(s.heap.cells[a as int] == self.heap.cells@[a as int]@);
            match &self.heap.cells[a] {
                Cell::Array(d) => {
                    let n = d.logical_len();
                    let ghost live = |i: usize| i < d@.length && element(d@, i) is Some;
                    let mut i: usize = 0;
                    while i < n
                        invariant
                            n == d@.length,
                            i <= n,
                            live == (|i: usize| i < d@.length && element(d@, i) is Some),
                            ascending(texts(out@)),
                            forall|t: Seq<char>| #[trigger] texts(out@).contains(t) <==> before.contains(t) || exists|j: usize| j < i && live(j) && #[trigger] decimal(j as nat) == t,
                        decreases n - i,
                    {
                        let ghost held = texts(out@);
                        let there = d.get_index(i).is_some();
                        if there {
                            insert_text(out, decimal_text(i as u64));
                        }
                        assert(there == live(i));
                        let ghost cur = i;
                        i += 1;
                        proof {
                            assert forall|t: Seq<char>| #[trigger] texts(out@).contains(t) <==> before.contains(t) || exists|j: usize| j < i && live(j) && #[trigger] decimal(j as nat) == t by {
                                assert(held.contains(t) <==> before.contains(t) || exists|j: usize| j < cur && live(j) && #[trigger] decimal(j as nat) == t);
                                if exists|j: usize| j < i && live(j) && #[trigger] decimal(j as nat) == t {
                                    let j = choose|j: usize| j < i && live(j) && #[trigger] decimal(j as nat) == t;
                                    if j < cur {
                                        assert(decimal(j as nat) == t);
                                    }
                                }
                                if there && t == decimal(cur as nat) {
                                    assert(cur < i && live(cur) && decimal(cur as nat) == t);
                                }
                                if exists|j: usize| j < cur && live(j) && #[trigger] decimal(j as nat) == t {
                                    let j = choose|j: usize| j < cur && live(j) && #[trigger] decimal(j as nat) == t;
                                    assert(j < i && live(j) && decimal(j as nat) == t);
                                }
                            }
                        }
                    }
                    let ghost dense = texts(out@);
                    let keys = d.sparse.keys();
                    let mut i: usize = 0;
                    while i < keys.len()
                        invariant
                            i <= keys@.len(),
                            ascending(texts(out@)),
                            forall|t: Seq<char>| #[trigger] texts(out@).contains(t) <==> dense.contains(t) || exists|j: usize| keys@.take(i as int).contains(j) && #[trigger] decimal(j as nat) == t,
                        decreases keys@.len() - i,
                    {
                        let ghost held = texts(out@);
                        let ghost seen = keys@.take(i as int);
                        let k = keys[i];
                        insert_text(out, decimal_text(k as u64));
                        i += 1;
                        proof {
                            assert(keys@.take(i as int) =~= seen.push(k));
                            assert forall|t: Seq<char>| #[trigger] texts(out@).contains(t) <==> dense.contains(t) || exists|j: usize| keys@.take(i as int).contains(j) && #[trigger] decimal(j as nat) == t by {
                                assert(held.contains(t) <==> dense.contains(t) || exists|j: usize| seen.contains(j) && #[trigger] decimal(j as nat) == t);
                                if exists|j: usize| seen.contains(j) && #[trigger] decimal(j as nat) == t {
                                    let j = choose|j: usize| seen.contains(j) && #[trigger] decimal(j as nat) == t;
                                    lemma_push_contains(seen, k, j);
                                    assert(decimal(j as nat) == t);
                                }
                                if exists|j: usize| seen.push(k).contains(j) && #[trigger] decimal(j as nat) == t {
                                    let j = choose|j: usize| seen.push(k).contains(j) && #[trigger] decimal(j as nat) == t;
                                    lemma_push_contains(seen, k, j);
                                }
                                if t == decimal(k as nat) {
                                    lemma_push_contains(seen, k, k);
                                    assert(decimal(k as nat) == t);
                                }
                            }
                        }
                    }
                    proof {
                        assert(keys@.take(i as int) =~= keys@);
                        assert forall|t: Seq<char>| #[trigger] texts(out@).contains(t) <==> before.contains(t) || element_key(d@, t) by {
                            assert(dense.contains(t) <==> before.contains(t) || exists|j: usize| j < n && live(j) && #[trigger] decimal(j as nat) == t);
                            if exists|j: usize| j < n && live(j) && #[trigger] decimal(j as nat) == t {
                                let j = choose|j: usize| j < n && live(j) && #[trigger] decimal(j as nat) == t;
                                assert(decimal(j as nat) == t);
                            }
                            if exists|j: usize| keys@.contains(j) && #[trigger] decimal(j as nat) == t {
                                let j = choose|j: usize| keys@.contains(j) && #[trigger] decimal(j as nat) == t;
                                assert(d@.sparse.contains_key(j) && decimal(j as nat) == t);
                            }
                            if element_key(d@, t) {
                                let j = choose|j: usize| ((j < d@.length && element(d@, j) is Some) || d@.sparse.contains_key(j)) && #[trigger] decimal(j as nat) == t;
                                if d@.sparse.contains_key(j) {
                                    assert(keys@.contains(j) && decimal(j as nat) == t);
                                } else {
                                    assert(live(j) && decimal(j as nat) == t);
                                }
                            }
                        }
                    }
                },
                _ => {},
            }
        }
    }

    /// The own keys that `for`-`in` visits.
    fn visited_own(&self, base: Value) -> (r: Vec<String>)
        ensures
            texts(r@) == sorted_texts(Set::new(|t: Seq<char>| visits(self@, base, t))),
            ascending(texts(r@)),
            forall|t: Seq<char>| #[trigger] texts(r@).contains(t) <==> visits(self@, base, t),
    {
        let mut out: Vec<String> = Vec::new();
        let ghost s = self@;
        assert(texts(out@) =~= Seq::<Seq<char>>::empty());
        match base {
            Value::Array(a) => {
                self.enter_elements(a, &mut out);
                self.enter_enumerable(a, false, &mut out);
            },
            Value::String(x) => {
                let n = chars_of(self.heap.atoms.text(x)).len();
                enter_indices(&mut out, n);
            },
            Value::Object(o) => {
                self.enter_enumerable(o, true, &mut out);
            },
            _ => {},
        }
        proof {
            let set = Set::new(|t: Seq<char>| visits(s, base, t));
            assert forall|t: Seq<char>| #[trigger] texts(out@).contains(t) <==> set.contains(t) by {}
            lemma_sorted_texts(texts(out@), set);
        }
        out
    }

    /// The enumerable keys of a cell that are not among those of nearer objects.
    fn visited_new(&self, c: usize, had: &Vec<String>, Ghost(hidden): Ghost<Set<Seq<char>>>) -> (r: Vec<String>)
        requires
            forall|t: Seq<char>| #[trigger] texts(had@).contains(t) <==> hidden.contains(t),
        ensures
            texts(r@) == sorted_texts(Set::new(|t: Seq<char>| own_enumerable(self@, c, t) && !hidden.contains(t))),
            ascending(texts(r@)),
            forall|t: Seq<char>| #[trigger] texts(r@).contains(t) <==> own_enumerable(self@, c, t) && !hidden.contains(t),
    {
        let ghost s = self@;
        let mut all: Vec<String> = Vec::new();
        assert(texts(all@) =~= Seq::<Seq<char>>::empty());
        self.enter_enumerable(c, true, &mut all);
        let mut out: Vec<String> = Vec::new();
        assert(texts(out@) =~= Seq::<Seq<char>>::empty());
        let mut i: usize = 0;
        while i < all.len()
            invariant
                i <= all@.len(),
                ascending(texts(out@)),
                forall|t: Seq<char>| #[trigger] texts(had@).contains(t) <==> hidden.contains(t),
                forall|t: Seq<char>| #[trigger] texts(out@).contains(t) <==> texts(all@).take(i as int).contains(t) && !hidden.contains(t),
            decreases all@.len() - i,
        {
            let ghost held = texts(out@);
            let ghost seen = texts(all@).take(i as int);
            let t = all[i].as_str();
            assert(texts(all@)[i as int] == t@);
            let fresh = !holds_text(had, t);
            if fresh {
                insert_text(&mut out, owned(t));
            }
            i += 1;
            proof {
                assert(texts(all@).take(i as int) =~= seen.push(t@));
                assert forall|x: Seq<char>| #[trigger] texts(out@).contains(x) <==> texts(all@).take(i as int).contains(x) && !hidden.contains(x) by {
                    assert(held.contains(x) <==> seen.contains(x) && !hidden.contains(x));
                    lemma_push_text(seen, t@, x);
                }
            }
        }
        proof {
            assert(texts(all@).take(i as int) =~= texts(all@));
            let set = Set::new(|t: Seq<char>| own_enumerable(s, c, t) && !hidden.contains(t));
            assert forall|t: Seq<char>| #[trigger] texts(out@).contains(t) <==> set.contains(t) by {
                assert(texts(all@).contains(t) <==> own_enumerable(s, c, t));
            }
            lemma_sorted_texts(texts(out@), set);
        }
        out
    }

    /// The keys of a value that hide what it inherits.
    fn hiding_keys(&self, base: Value, own: &Vec<String>) -> (r: Vec<String>)
        requires
            forall|t: Seq<char>| #[trigger] texts(own@).contains(t) <==> visits(self@, base, t),
        ensures
            forall|t: Seq<char>| #[trigger] texts(r@).contains(t) <==> hides(self@, base, t),
    {
        let ghost s = self@;
        let mut had: Vec<String> = Vec::new();
        assert(texts(had@) =~= Seq::<Seq<char>>::empty());
        add_texts(&mut had, own);
        match base {
            Value::Array(a) => {
                let names = self.slot_names(a, true);
                add_texts(&mut had, &names);
                add_text(&mut had, "length");
            },
            Value::String(_) => {
                add_text(&mut had, "length");
            },
            Value::Object(o) => {
                let names = self.slot_names(o, true);
                add_texts(&mut had, &names);
            },
            _ => {},
        }
        had
    }

    /// The keys that `for`-`in` visits; none comes twice.
    pub fn enumerable_keys(&self, base: Value) -> (r: Vec<String>)
        ensures
            texts(r@) == visited_keys(self@, base),
            texts(r@).no_duplicates(),
    {
        let ghost s = self@;
        let mut out = self.visited_own(base);
        let mut had = self.hiding_keys(base, &out);
        let ghost mut hidden = Set::new(|t: Seq<char>| hides(s, base, t));
        proof {
            lemma_ascending_distinct(texts(out@));
            assert forall|t: Seq<char>| #[trigger] texts(had@).contains(t) <==> hidden.contains(t) by {}
        }
        let mut cur = match base {
            Value::Array(_) => Some(self.b.array_prototype),
            Value::String(_) => Some(self.b.string_prototype),
            Value::Object(o) => self.heap.proto(o),
            _ => None,
        };
        let mut fuel: usize = self.heap.cells.len();
        loop
            invariant
                s == self@,
                texts(out@).no_duplicates(),
                visited_keys(s, base) == texts(out@) + inherited_keys(s, cur, hidden, fuel as nat),
                forall|t: Seq<char>| #[trigger] texts(had@).contains(t) <==> hidden.contains(t),
                forall|t: Seq<char>| #[trigger] texts(out@).contains(t) ==> hidden.contains(t),
            ensures
                texts(out@).no_duplicates(),
                visited_keys(s, base) == texts(out@),
            decreases fuel,
        {
            match cur {
                None => {
                    assert(texts(out@) + Seq::<Seq<char>>::empty() =~= texts(out@));
                    break;
                },
                Some(c) => {
                    if fuel == 0 {
                        assert(texts(out@) + Seq::<Seq<char>>::empty() =~= texts(out@));
                        break;
                    }
                    let more = self.visited_new(c, &had, Ghost(hidden));
                    let names = self.slot_names(c, true);
                    let ghost held = texts(out@);
                    let ghost new = texts(more@);
                    let ghost before = hidden;
                    add_texts(&mut had, &names);
                    push_all(&mut out, more);
                    cur = self.heap.proto(c);
                    fuel = fuel - 1;
                    proof {
                        let named = Set::new(|t: Seq<char>| names_slot(s, c, true, t));
                        hidden = before.union(named);
                        lemma_ascending_distinct(new);
                        assert(held + (new + inherited_keys(s, cur, hidden, fuel as nat)) =~= (held + new) + inherited_keys(s, cur, hidden, fuel as nat));
                        assert forall|t: Seq<char>| #[trigger] texts(had@).contains(t) <==> hidden.contains(t) by {}
                        assert forall|t: Seq<char>| #[trigger] texts(out@).contains(t) implies hidden.contains(t) by {
                            lemma_sum_contains(held, new, t);
                            if new.contains(t) {
                                lemma_enumerable_named(s, c, t);
                            }
                        }
                        assert forall|i: int, j: int| 0 <= i < texts(out@).len() && 0 <= j < texts(out@).len() && i != j implies texts(out@)[i] != texts(out@)[j] by {
                            let n = held.len() as int;
                            if i < n && j >= n {
                                assert(held.contains(held[i]));
                                assert(new.contains(new[j - n]));
                            } else if j < n && i >= n {
                                assert(held.contains(held[j]));
                                assert(new.contains(new[i - n]));
                            }
                        }
                    }
                },
            }
        }
        out
    }

    fn slot_names(&self, c: usize, with_marks: bool) -> (r: Vec<String>)
        ensures
            texts(r@) == slot_names(self@, c, with_marks),
            forall|t: Seq<char>| #[trigger] texts(r@).contains(t) <==> names_slot(self@, c, with_marks, t),
    {
        let keys = self.heap.prop_keys(c);
        let ghost s = self@;
        let ghost counts = |k: usize| s.heap.props(c).contains_key(k) && (with_marks || (k != s.n.boxed && k != s.n.error_data)) && !symbol_key(s.text(k));
        let mut out: Vec<String> = Vec::new();
        assert(texts(out@) =~= Seq::<Seq<char>>::empty());
        let mut i: usize = 0;
        while i < keys.len()
            invariant
                i <= keys@.len(),
                s == self@,
                counts == (|k: usize| s.heap.props(c).contains_key(k) && (with_marks || (k != s.n.boxed && k != s.n.error_data)) && !symbol_key(s.text(k))),
                forall|k: usize| keys@.contains(k) <==> s.heap.props(c).contains_key(k),
                ascending(texts(out@)),
                forall|t: Seq<char>| #[trigger] texts(out@).contains(t) <==> exists|k: usize| keys@.take(i as int).contains(k) && #[trigger] counts(k) && s.text(k) == t,
            decreases keys@.len() - i,
        {
            let k = keys[i];
            let ghost held = texts(out@);
            let ghost seen = keys@.take(i as int);
            assert(keys@.contains(k));
            let add = (with_marks || (k != self.n.boxed && k != self.n.error_data)) && !is_symbol_key(self.heap.atoms.text(k));
            if add {
                insert_text(&mut out, owned(self.heap.atoms.text(k)));
            }
            i += 1;
            proof {
                assert(keys@.take(i as int) =~= seen.push(k));
                assert(add == counts(k));
                assert forall|t: Seq<char>| #[trigger] texts(out@).contains(t) <==> exists|q: usize| keys@.take(i as int).contains(q) && #[trigger] counts(q) && s.text(q) == t by {
                    assert(held.contains(t) <==> exists|q: usize| seen.contains(q) && #[trigger] counts(q) && s.text(q) == t);
                    if exists|q: usize| seen.contains(q) && #[trigger] counts(q) && s.text(q) == t {
                        let q = choose|q: usize| seen.contains(q) && #[trigger] counts(q) && s.text(q) == t;
                        lemma_push_contains(seen, k, q);
                        assert(counts(q));
                    }
                    if exists|q: usize| seen.push(k).contains(q) && #[trigger] counts(q) && s.text(q) == t {
                        let q = choose|q: usize| seen.push(k).contains(q) && #[trigger] counts(q) && s.text(q) == t;
                        lemma_push_contains(seen, k, q);
                    }
                    if add && s.text(k) == t {
                        lemma_push_contains(seen, k, k);
                        assert(counts(k));
                    }
                }
            }
        }
        proof {
            assert(keys@.take(i as int) =~= keys@);
            let set = Set::new(|t: Seq<char>| names_slot(s, c, with_marks, t));
            assert forall|t: Seq<char>| #[trigger] texts(out@).contains(t) <==> set.contains(t) by {
                if exists|q: usize| keys@.contains(q) && #[trigger] counts(q) && s.text(q) == t {
                    let q = choose|q: usize| keys@.contains(q) && #[trigger] counts(q) && s.text(q) == t;
                    assert(s.heap.props(c).contains_key(q));
                }
                if names_slot(s, c, with_marks, t) {
                    let q = choose|q: usize| #[trigger] s.heap.props(c).contains_key(q) && (with_marks || (q != s.n.boxed && q != s.n.error_data)) && s.text(q) == t;
                    assert(keys@.contains(q) && counts(q));
                }
            }
            lemma_sorted_texts(texts(out@), set);
        }
        out
    }

    /// The own keys of a value, without the marks of wrapped primitives and errors.
    pub fn own_property_names(&self, base: Value) -> (r: Vec<String>)
        ensures
            texts(r@) == own_names(self@, base),
    {
        let ghost s = self@;
        match base {
            Value::Array(a) => {
                let mut out: Vec<String> = Vec::new();
                out.push(owned("length"));
                assert(texts(out@) =~= seq!["length"@]);
                if a < self.heap.cells.len() {
                    assert(s.heap.cells[a as int] == self.heap.cells@[a as int]@);
                    match &self.heap.cells[a] {
                        Cell::Array(d) => {
                            push_indices(&mut out, d.elems.len());
                            let keys = d.sparse.keys();
                            assert(keys@.to_set() =~= d@.sparse.dom());
                            let ids = sort_ids(&keys);
                            push_numbers(&mut out, &ids);
                        },
                        _ => {},
                    }
                }
                push_all(&mut out, self.slot_names(a, false));
                assert(texts(out@) =~= own_names(s, base));
                out
            },
            Value::String(x) => {
                let mut out: Vec<String> = Vec::new();
                out.push(owned("length"));
                assert(texts(out@) =~= seq!["length"@]);
                let n = chars_of(self.heap.atoms.text(x)).len();
                push_indices(&mut out, n);
                out
            },
            Value::Promise(p) => self.slot_names(p, true),
            Value::Object(i) | Value::Function(i) | Value::NativeFunction(i) => self.slot_names(i, false),
            _ => {
                let out: Vec<String> = Vec::new();
                assert(texts(out@) =~= Seq::<Seq<char>>::empty());
                out
            },
        }
    }

    /// The own keys of a value that are symbols, by their identities.
    pub fn own_symbol_props(&self, base: Value) -> (r: Vec<usize>)
        ensures
            r@ == sorted_ids(own_symbols(self@, base)),
            forall|k: usize| #[trigger] r@.contains(k) <==> own_symbols(self@, base).contains(k),
    {
        let ghost s = self@;
        let keys = match base {
            Value::Object(i) | Value::Array(i) | Value::Function(i) | Value::NativeFunction(i) | Value::Promise(i) => self.heap.prop_keys(i),
            _ => Vec::new(),
        };
        let mut found: Vec<usize> = Vec::new();
        let mut i: usize = 0;
        while i < keys.len()
            invariant
                i <= keys@.len(),
                s == self@,
                forall|k: usize| #[trigger] found@.contains(k) <==> keys@.take(i as int).contains(k) && symbol_key(s.text(k)),
            decreases keys@.len() - i,
        {
            let k = keys[i];
            let ghost held = found@;
            let ghost seen = keys@.take(i as int);
            let add = is_symbol_key(self.heap.atoms.text(k));
            if add {
                found.push(k);
            }
            i += 1;
            proof {
                assert(keys@.take(i as int) =~= seen.push(k));
                assert forall|q: usize| #[trigger] found@.contains(q) <==> keys@.take(i as int).contains(q) && symbol_key(s.text(q)) by {
                    assert(held.contains(q) <==> seen.contains(q) && symbol_key(s.text(q)));
                    lemma_push_contains(seen, k, q);
                    lemma_push_contains(held, k, q);
                }
            }
        }
        assert(keys@.take(i as int) =~= keys@);
        assert(found@.to_set() =~= own_symbols(s, base));
        sort_ids(&found)
    }
}

} // verus!
