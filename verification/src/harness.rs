//! Running conformance tests: which sources a test needs, in which modes it
//! runs, and what its run says.
use vstd::prelude::*;
use crate::frontmatter::{Meta, MetaView};
use crate::scan::{find_from, has_part, lines, position, slice, split_lines, stands_at, trim, trimmed, begins, views};
use crate::text::{chars_of, decimal, decimal_text, joined, owned, string_from, texts};

verus! {

/// The verdict on one run of a test.
#[derive(Clone, Copy, PartialEq, Eq, Structural, Debug)]
pub enum Status {
    Pass,
    Fail,
    Skip,
}

impl Status {
    /// Whether the test passed.
    pub fn is_pass(&self) -> (r: bool)
        ensures
            r == (*self == Status::Pass),
    {
        *self == Status::Pass
    }
}

/// The outcome of one test in one mode.
#[derive(Clone, Debug)]
pub struct TestOutcome {
    pub path: String,
    pub strict: bool,
    pub status: Status,
    pub detail: String,
}

/// The contents of a [`TestOutcome`].
#[verifier::ext_equal]
pub struct OutcomeView {
    pub path: Seq<char>,
    pub strict: bool,
    pub status: Status,
    pub detail: Seq<char>,
}

impl TestOutcome {
    /// The contents.
    pub open spec fn view(&self) -> OutcomeView {
        OutcomeView { path: self.path@, strict: self.strict, status: self.status, detail: self.detail@ }
    }

    fn made(path: &str, strict: bool, status: Status, detail: &str) -> (r: Self)
        ensures
            r@ == (OutcomeView { path: path@, strict, status, detail: detail@ }),
    {
        TestOutcome { path: owned(path), strict, status, detail: owned(detail) }
    }
}

/// How many outcomes have a status.
pub open spec fn tally(s: Seq<TestOutcome>, status: Status) -> nat
    decreases s.len(),
{
    if s.len() == 0 {
        0
    } else {
        tally(s.drop_last(), status) + (if s.last().status == status { 1nat } else { 0nat })
    }
}

/// Counts the outcomes that passed, failed and were skipped.
pub fn summarize(outcomes: &[TestOutcome]) -> (r: (usize, usize, usize))
    ensures
        r.0 == tally(outcomes@, Status::Pass),
        r.1 == tally(outcomes@, Status::Fail),
        r.2 == tally(outcomes@, Status::Skip),
        r.0 + r.1 + r.2 == outcomes@.len(),
{
    let mut pass: usize = 0;
    let mut fail: usize = 0;
    let mut skip: usize = 0;
    let n = outcomes.len();
    let mut i: usize = 0;
    while i < n
        invariant
            i <= n,
            n == outcomes@.len(),
            pass == tally(outcomes@.take(i as int), Status::Pass),
            fail == tally(outcomes@.take(i as int), Status::Fail),
            skip == tally(outcomes@.take(i as int), Status::Skip),
            pass + fail + skip == i,
        decreases n - i,
    {
        assert(outcomes@.take(i + 1).drop_last() =~= outcomes@.take(i as int));
        match outcomes[i].status {
            Status::Pass => pass += 1,
            Status::Fail => fail += 1,
            Status::Skip => skip += 1,
        }
        i += 1;
    }
    assert(outcomes@.take(n as int) =~= outcomes@);
    (pass, fail, skip)
}

/// The outcomes of several files, one after the other.
pub open spec fn chained(rs: Seq<Vec<TestOutcome>>) -> Seq<TestOutcome>
    decreases rs.len(),
{
    if rs.len() == 0 { Seq::empty() } else { chained(rs.drop_last()) + rs.last()@ }
}

/// Runs each file with `run`, in order, and gives all outcomes.
pub fn run_files<F: Fn(&String) -> Vec<TestOutcome>>(paths: &Vec<String>, run: F) -> (r: Vec<TestOutcome>)
    requires
        forall|i: int| 0 <= i < paths@.len() ==> call_requires(run, (&#[trigger] paths@[i],)),
    ensures
        exists|rs: Seq<Vec<TestOutcome>>|
            #![trigger chained(rs)]
            rs.len() == paths@.len() && r@ == chained(rs) && forall|i: int|
                0 <= i < rs.len() ==> call_ensures(run, (&paths@[i],), #[trigger] rs[i]),
{
    let mut out: Vec<TestOutcome> = Vec::new();
    let ghost mut rs: Seq<Vec<TestOutcome>> = Seq::empty();
    let mut i: usize = 0;
    while i < paths.len()
        invariant
            i <= paths@.len(),
            rs.len() == i,
            out@ == chained(rs),
            forall|j: int| 0 <= j < paths@.len() ==> call_requires(run, (&#[trigger] paths@[j],)),
            forall|j: int| 0 <= j < rs.len() ==> call_ensures(run, (&paths@[j],), #[trigger] rs[j]),
        decreases paths@.len() - i,
    {
        let mut part = run(&paths[i]);
        let ghost pv = part;
        let ghost before = out@;
        out.append(&mut part);
        proof {
            let next = rs.push(pv);
            assert(next.drop_last() =~= rs);
            rs = next;
        }
        i += 1;
    }
    out
}

/// A file or a directory with what is in it.
pub enum Entry {
    File { name: String, path: String },
    Dir(Vec<Entry>),
}

/// Whether a file name has the extension `js`.
pub open spec fn js_name(name: Seq<char>) -> bool {
    name.len() > 3 && stands_at(name, ".js"@, name.len() - 3)
}

/// The paths of the test files in a list of entries, depth first, in the order
/// of the entries.
pub open spec fn test_paths(entries: Seq<Entry>) -> Seq<Seq<char>>
    decreases entries,
{
    if entries.len() == 0 {
        Seq::empty()
    } else {
        test_paths(entries.drop_last()) + match entries.last() {
            Entry::File { name, path } => if js_name(name@) { seq![path@] } else { Seq::empty() },
            Entry::Dir(inner) => test_paths(inner@),
        }
    }
}

fn is_js_name(name: &String) -> (r: bool)
    ensures
        r == js_name(name@),
{
    let v = chars_of(name.as_str());
    let n = v.len();
    proof {
        reveal_strlit(".js");
    }
    if n > 3 {
        let tail = slice(&v, n - 3, n);
        crate::scan::is_text(&tail, ".js")
    } else {
        false
    }
}

/// Collects every `*.js` file of a directory tree.
pub fn collect_test_files(entries: &Vec<Entry>) -> (r: Vec<String>)
    ensures
        texts(r@) == test_paths(entries@),
    decreases entries,
{
    let mut out: Vec<String> = Vec::new();
    let mut i: usize = 0;
    assert(entries@.take(0).len() == 0);
    while i < entries.len()
        invariant
            i <= entries@.len(),
            texts(out@) == test_paths(entries@.take(i as int)),
        decreases entries@.len() - i,
    {
        let ghost before = out@;
        assert(entries@.take(i + 1).drop_last() =~= entries@.take(i as int));
        assert(entries@.take(i + 1).last() == entries@[i as int]);
        match &entries[i] {
            Entry::File { name, path } => {
                if is_js_name(name) {
                    out.push(path.clone());
                    assert(texts(out@) =~= texts(before) + seq![path@]);
                } else {
                    assert(texts(out@) =~= texts(before) + Seq::<Seq<char>>::empty());
                }
            },
            Entry::Dir(inner) => {
                let mut more = collect_test_files(inner);
                let ghost mv = more@;
                out.append(&mut more);
                assert(texts(out@) =~= texts(before) + texts(mv));
            },
        }
        i += 1;
    }
    assert(entries@.take(i as int) =~= entries@);
    out
}

/// The `id` that a line of an exclude list gives.
pub open spec fn line_id(line: Seq<char>) -> Option<Seq<char>> {
    if stands_at(line, "<test"@, 0) {
        let rest = line.subrange(5, line.len() as int);
        match position(rest, "id=\""@, 0) {
            None => None,
            Some(a) => {
                let after = rest.subrange(a + 4, rest.len() as int);
                match position(after, "\""@, 0) {
                    None => None,
                    Some(e) => Some(after.subrange(0, e)),
                }
            },
        }
    } else {
        None
    }
}

/// The ids that the lines of an exclude list give.
pub open spec fn line_ids(ls: Seq<Seq<char>>) -> Seq<Seq<char>>
    decreases ls.len(),
{
    if ls.len() == 0 {
        Seq::empty()
    } else {
        match line_id(trimmed(ls.last())) {
            Some(id) => line_ids(ls.drop_last()).push(id),
            None => line_ids(ls.drop_last()),
        }
    }
}

fn id_of_line(line: &Vec<char>) -> (r: Option<String>)
    ensures
        match line_id(line@) {
            Some(id) => r is Some && r->0@ == id,
            None => r is None,
        },
{
    proof {
        reveal_strlit("<test");
        reveal_strlit("id=\"");
        reveal_strlit("\"");
    }
    let n = line.len();
    if !begins(line, "<test") {
        return None;
    }
    let rest = slice(line, 5, n);
    let k = rest.len();
    match find_from(&rest, "id=\"", 0) {
        None => None,
        Some(a) => {
            let after = slice(&rest, a + 4, k);
            match find_from(&after, "\"", 0) {
                None => None,
                Some(e) => Some(string_from(&after, 0, e)),
            }
        },
    }
}

/// Reads an exclude list: the `id` attributes of its `<test` lines.
pub fn parse_excludelist(content: &str) -> (r: Vec<String>)
    ensures
        texts(r@) == line_ids(lines(content@)),
{
    let chars = chars_of(content);
    let ls = split_lines(&chars);
    let ghost lv = views(ls@);
    let mut out: Vec<String> = Vec::new();
    let mut i: usize = 0;
    assert(lv.take(0).len() == 0);
    while i < ls.len()
        invariant
            i <= ls@.len(),
            lv == views(ls@),
            texts(out@) == line_ids(lv.take(i as int)),
        decreases ls@.len() - i,
    {
        assert(lv.take(i + 1).drop_last() =~= lv.take(i as int));
        assert(lv.take(i + 1).last() == ls@[i as int]@);
        let ghost before = out@;
        let line = trim(&ls[i]);
        match id_of_line(&line) {
            Some(id) => {
                out.push(id);
                assert(texts(out@) =~= texts(before).push(id@));
            },
            None => {},
        }
        i += 1;
    }
    assert(lv.take(i as int) =~= lv);
    out
}

/// Whether one of the texts occurs in `path`.
pub open spec fn some_occurs(path: Seq<char>, ids: Seq<String>) -> bool {
    exists|i: int| 0 <= i < ids.len() && position(path, (#[trigger] ids[i])@, 0) is Some
}

fn some_part(path: &str, ids: &Vec<String>) -> (r: bool)
    ensures
        r == some_occurs(path@, ids@),
{
    let v = chars_of(path);
    let mut i: usize = 0;
    while i < ids.len()
        invariant
            i <= ids@.len(),
            v@ == path@,
            forall|j: int| 0 <= j < i ==> position(path@, (#[trigger] ids@[j])@, 0) is None,
        decreases ids@.len() - i,
    {
        if has_part(&v, ids[i].as_str()) {
            return true;
        }
        i += 1;
    }
    false
}

/// Whether a path matches an excluded id: the id occurs in it.
pub fn is_excluded(path: &str, excludes: &Vec<String>) -> (r: bool)
    ensures
        r == some_occurs(path@, excludes@),
{
    some_part(path, excludes)
}

/// A longer exclude list excludes at least as much.
pub proof fn law_more_excludes(path: Seq<char>, a: Seq<String>, b: Seq<String>)
    requires
        some_occurs(path, a),
    ensures
        some_occurs(path, a + b),
        some_occurs(path, b + a),
{
    let i = choose|i: int| 0 <= i < a.len() && position(path, (#[trigger] a[i])@, 0) is Some;
    assert((a + b)[i] == a[i]);
    assert((b + a)[b.len() + i] == a[i]);
}

/// Whether a file is selected: not excluded, and matched by a filter if there
/// are any.
pub open spec fn selected(path: Seq<char>, excludes: Seq<String>, filters: Seq<String>) -> bool {
    !some_occurs(path, excludes) && (filters.len() == 0 || some_occurs(path, filters))
}

/// The files that are selected, in order.
pub open spec fn selection(files: Seq<String>, excludes: Seq<String>, filters: Seq<String>) -> Seq<Seq<char>>
    decreases files.len(),
{
    if files.len() == 0 {
        Seq::empty()
    } else {
        let rest = selection(files.drop_last(), excludes, filters);
        if selected(files.last()@, excludes, filters) { rest.push(files.last()@) } else { rest }
    }
}

/// Drops the excluded files and those that no filter matches.
pub fn select_files(files: &Vec<String>, excludes: &Vec<String>, filters: &Vec<String>) -> (r: Vec<String>)
    ensures
        texts(r@) == selection(files@, excludes@, filters@),
{
    let mut out: Vec<String> = Vec::new();
    let mut i: usize = 0;
    assert(files@.take(0).len() == 0);
    while i < files.len()
        invariant
            i <= files@.len(),
            texts(out@) == selection(files@.take(i as int), excludes@, filters@),
        decreases files@.len() - i,
    {
        assert(files@.take(i + 1).drop_last() =~= files@.take(i as int));
        let ghost before = out@;
        let path = files[i].as_str();
        if !is_excluded(path, excludes) && (filters.len() == 0 || some_part(path, filters)) {
            out.push(files[i].clone());
            assert(texts(out@) =~= texts(before).push(files@[i as int]@));
        }
        i += 1;
    }
    assert(files@.take(i as int) =~= files@);
    out
}

/// The files of one shard: those whose position leaves the shard's index when
/// divided by the number of shards.
pub open spec fn shard_of(files: Seq<String>, index: int, count: int) -> Seq<Seq<char>>
    decreases files.len(),
{
    if files.len() == 0 {
        Seq::empty()
    } else {
        let rest = shard_of(files.drop_last(), index, count);
        if (files.len() - 1) % count == index { rest.push(files.last()@) } else { rest }
    }
}

/// Picks the files of one shard.
pub fn take_shard(files: &Vec<String>, index: usize, count: usize) -> (r: Vec<String>)
    requires
        count > 0,
    ensures
        texts(r@) == shard_of(files@, index as int, count as int),
{
    let mut out: Vec<String> = Vec::new();
    let mut i: usize = 0;
    assert(files@.take(0).len() == 0);
    while i < files.len()
        invariant
            i <= files@.len(),
            count > 0,
            texts(out@) == shard_of(files@.take(i as int), index as int, count as int),
        decreases files@.len() - i,
    {
        assert(files@.take(i + 1).drop_last() =~= files@.take(i as int));
        let ghost before = out@;
        if i % count == index {
            out.push(files[i].clone());
            assert(texts(out@) =~= texts(before).push(files@[i as int]@));
        }
        i += 1;
    }
    assert(files@.take(i as int) =~= files@);
    out
}

/// The shards of a list hold as many files as the list: each file is in exactly
/// one of them.
pub proof fn law_shards_partition(files: Seq<String>, count: int)
    requires
        count > 0,
    ensures
        shard_total(files, count, count) == files.len(),
    decreases files.len(),
{
    if files.len() == 0 {
        lemma_empty_total(count, count);
    } else {
        law_shards_partition(files.drop_last(), count);
        lemma_total_step(files, count, count);
    }
}

/// The number of files in the shards with an index below `n`.
pub open spec fn shard_total(files: Seq<String>, count: int, n: int) -> int
    decreases n,
{
    if n <= 0 { 0 } else { shard_total(files, count, n - 1) + shard_of(files, n - 1, count).len() }
}

proof fn lemma_empty_total(count: int, n: int)
    requires
        n >= 0,
    ensures
        shard_total(Seq::<String>::empty(), count, n) == 0,
        forall|f: Seq<String>| f.len() == 0 ==> #[trigger] shard_total(f, count, n) == 0,
    decreases n,
{
    if n > 0 {
        lemma_empty_total(count, n - 1);
    }
    assert forall|f: Seq<String>| f.len() == 0 implies #[trigger] shard_total(f, count, n) == 0 by {
        assert(f =~= Seq::<String>::empty());
    }
}

proof fn lemma_total_step(files: Seq<String>, count: int, n: int)
    requires
        files.len() > 0,
        0 <= n <= count,
        count > 0,
    ensures
        shard_total(files, count, n) == shard_total(files.drop_last(), count, n) + (if (files.len() - 1) % count < n { 1int } else { 0int }),
    decreases n,
{
    if n > 0 {
        lemma_total_step(files, count, n - 1);
    } else {
        assert((files.len() - 1) % count >= 0) by (nonlinear_arith)
            requires
                count > 0,
        ;
    }
}

/// The modes in which a test runs; `true` is strict.
pub open spec fn modes_of(m: MetaView) -> Seq<bool> {
    if m.only_strict {
        seq![true]
    } else if m.no_strict || m.raw {
        seq![false]
    } else {
        seq![false, true]
    }
}

/// The modes in which a test runs.
pub fn modes(meta: &Meta) -> (r: Vec<bool>)
    ensures
        r@ == modes_of(meta@),
{
    let mut r: Vec<bool> = Vec::new();
    if meta.only_strict {
        r.push(true);
    } else {
        r.push(false);
        if !meta.no_strict && !meta.raw {
            r.push(true);
        }
    }
    assert(r@ =~= modes_of(meta@));
    r
}

/// The harness files that a test needs: none for a raw test, otherwise the two
/// standard ones and those that it lists.
pub open spec fn needed(m: MetaView) -> Seq<Seq<char>> {
    if m.raw { Seq::empty() } else { seq!["assert.js"@, "sta.js"@] + m.includes }
}

/// The harness files that a test needs.
pub fn harness_names(meta: &Meta) -> (r: Vec<String>)
    ensures
        texts(r@) == needed(meta@),
{
    let mut r: Vec<String> = Vec::new();
    if meta.raw {
        assert(texts(r@) =~= needed(meta@));
        return r;
    }
    r.push(owned("assert.js"));
    r.push(owned("sta.js"));
    let ghost two = seq!["assert.js"@, "sta.js"@];
    let mut i: usize = 0;
    assert(texts(r@) =~= two + meta@.includes.take(0));
    while i < meta.includes.len()
        invariant
            i <= meta.includes@.len(),
            texts(r@) == two + meta@.includes.take(i as int),
        decreases meta.includes@.len() - i,
    {
        let ghost before = r@;
        r.push(meta.includes[i].clone());
        assert(meta@.includes.take(i + 1) =~= meta@.includes.take(i as int).push(meta.includes@[i as int]@));
        assert(texts(r@) =~= texts(before).push(meta.includes@[i as int]@));
        i += 1;
        assert(texts(r@) =~= two + meta@.includes.take(i as int));
    }
    assert(meta@.includes.take(i as int) =~= meta@.includes);
    r
}

/// The outcome of a test whose harness file is missing.
pub fn harness_missing(path: &str, name: &str) -> (r: TestOutcome)
    ensures
        r@ == (OutcomeView { path: path@, strict: false, status: Status::Fail, detail: "harness file '"@ + name@ + "' not found"@ }),
{
    let a = joined("harness file '", name);
    let b = joined(a.as_str(), "' not found");
    TestOutcome::made(path, false, Status::Fail, b.as_str())
}

/// The first harness file that is missing.
pub open spec fn first_missing(found: Seq<Option<String>>) -> int
    decreases found.len(),
{
    if found.len() == 0 {
        0
    } else if first_missing(found.drop_last()) < found.len() - 1 {
        first_missing(found.drop_last())
    } else if found.last() is None {
        found.len() - 1
    } else {
        found.len() as int
    }
}

/// The contents of the harness files in a row.
pub open spec fn contents(found: Seq<Option<String>>) -> Seq<char>
    decreases found.len(),
{
    if found.len() == 0 {
        Seq::empty()
    } else {
        contents(found.drop_last()) + match found.last() {
            Some(s) => s@,
            None => Seq::empty(),
        }
    }
}

proof fn lemma_missing_monotone(found: Seq<Option<String>>, n: int)
    requires
        0 <= n <= found.len(),
    ensures
        0 <= first_missing(found) <= found.len(),
        first_missing(found.take(n)) < n ==> first_missing(found) == first_missing(found.take(n)),
    decreases found.len(),
{
    if found.len() > 0 {
        if n == found.len() {
            assert(found.take(n) =~= found);
            lemma_missing_monotone(found.drop_last(), n - 1);
        } else {
            lemma_missing_monotone(found.drop_last(), n);
            assert(found.drop_last().take(n) =~= found.take(n));
        }
    }
}

/// Chooses the directory of a harness file. Of each directory, nearest first, it is known
/// whether it holds the common harness file and whether it holds the wanted one; the
/// result is the place of the first that holds both, or the number of directories where
/// the fallback has the file.
pub fn choose_harness(near: &Vec<(bool, bool)>, fallback: bool) -> (r: Option<usize>)
    ensures
        r is None <==> !fallback && forall|j: int| 0 <= j < near@.len() ==> !((#[trigger] near@[j]).0 && near@[j].1),
        r matches Some(i) ==> (forall|j: int| 0 <= j < i ==> !((#[trigger] near@[j]).0 && near@[j].1)) && if i < near@.len() {
            near@[i as int].0 && near@[i as int].1
        } else {
            i == near@.len() && fallback
        },
{
    let mut i: usize = 0;
    while i < near.len()
        invariant
            i <= near@.len(),
            forall|j: int| 0 <= j < i ==> !((#[trigger] near@[j]).0 && near@[j].1),
        decreases near@.len() - i,
    {
        if near[i].0 && near[i].1 {
            return Some(i);
        }
        i += 1;
    }
    if fallback { Some(near.len()) } else { None }
}

/// Puts the harness of a test together from the contents of the files that it
/// needs, or gives the outcome of the test if one of them is missing.
pub fn assemble_harness(path: &str, names: &Vec<String>, found: &Vec<Option<String>>) -> (r: Result<String, TestOutcome>)
    requires
        names@.len() == found@.len(),
    ensures
        match r {
            Ok(s) => first_missing(found@) == found@.len() && s@ == contents(found@),
            Err(o) => first_missing(found@) < found@.len() && o@ == (OutcomeView {
                path: path@,
                strict: false,
                status: Status::Fail,
                detail: "harness file '"@ + names@[first_missing(found@)]@ + "' not found"@,
            }),
        },
{
    let mut out = String::new();
    let mut i: usize = 0;
    assert(found@.take(0).len() == 0);
    assert(out@ =~= contents(found@.take(0)));
    while i < found.len()
        invariant
            i <= found@.len(),
            names@.len() == found@.len(),
            first_missing(found@.take(i as int)) == i,
            out@ == contents(found@.take(i as int)),
        decreases found@.len() - i,
    {
        assert(found@.take(i + 1).drop_last() =~= found@.take(i as int));
        match &found[i] {
            Some(s) => {
                out.append(s.as_str());
            },
            None => {
                proof {
                    lemma_missing_monotone(found@, i + 1);
                }
                return Err(harness_missing(path, names[i].as_str()));
            },
        }
        i += 1;
    }
    assert(found@.take(i as int) =~= found@);
    Ok(out)
}

/// The source that is evaluated in a mode.
pub fn test_body(source: &str, strict: bool) -> (r: String)
    ensures
        r@ == (if strict { "\"use strict\";\n"@ + source@ } else { source@ }),
{
    if strict { joined("\"use strict\";\n", source) } else { owned(source) }
}

/// The outcome of a test file that cannot be read.
pub fn unreadable(path: &str, error: &str) -> (r: TestOutcome)
    ensures
        r@ == (OutcomeView { path: path@, strict: false, status: Status::Fail, detail: "cannot read file: "@ + error@ }),
{
    let d = joined("cannot read file: ", error);
    TestOutcome::made(path, false, Status::Fail, d.as_str())
}

/// The outcome of a test that needs modules, if it does.
pub fn module_outcome(path: &str, meta: &Meta) -> (r: Option<TestOutcome>)
    ensures
        r is Some <==> meta@.module,
        r is Some ==> r->0@ == (OutcomeView { path: path@, strict: false, status: Status::Skip, detail: "modules are not supported"@ }),
{
    if meta.module {
        Some(TestOutcome::made(path, false, Status::Skip, "modules are not supported"))
    } else {
        None
    }
}

/// The outcome of a test whose run panicked.
pub fn panicked(path: &str) -> (r: TestOutcome)
    ensures
        r@ == (OutcomeView { path: path@, strict: false, status: Status::Fail, detail: "panic while running test"@ }),
{
    TestOutcome::made(path, false, Status::Fail, "panic while running test")
}

/// The outcome in a mode whose harness failed.
pub fn harness_failed(path: &str, strict: bool, error: &str) -> (r: TestOutcome)
    ensures
        r@ == (OutcomeView { path: path@, strict, status: Status::Fail, detail: "harness failed: "@ + error@ }),
{
    let d = joined("harness failed: ", error);
    TestOutcome::made(path, strict, Status::Fail, d.as_str())
}

/// What a test asks the engine to do.
#[derive(Clone, Copy, PartialEq, Eq, Structural, Debug)]
pub enum Probe {
    /// Parse the source only.
    Parse,
    /// Evaluate the source.
    Evaluate,
    /// Nothing: the test cannot be judged.
    Nothing,
}

/// What a test asks the engine to do.
pub open spec fn probe_of(m: MetaView) -> Probe {
    match m.negative_phase {
        Some(p) => if p == "parse"@ {
            Probe::Parse
        } else if p == "runtime"@ {
            Probe::Evaluate
        } else {
            Probe::Nothing
        },
        None => Probe::Evaluate,
    }
}

/// What a test asks the engine to do.
pub fn probe(meta: &Meta) -> (r: Probe)
    ensures
        r == probe_of(meta@),
{
    match &meta.negative_phase {
        Some(p) => if crate::atoms::same_text(p.as_str(), "parse") {
            Probe::Parse
        } else if crate::atoms::same_text(p.as_str(), "runtime") {
            Probe::Evaluate
        } else {
            Probe::Nothing
        },
        None => Probe::Evaluate,
    }
}

/// What was seen of a run: the error that ended it, whether and with which error
/// `$DONE` was called, and the unhandled rejections.
pub struct Seen {
    pub error: Option<String>,
    pub done: bool,
    pub done_error: Option<String>,
    pub unhandled: u64,
    pub first_unhandled: String,
}

/// The verdict on an async test whose evaluation succeeded.
pub open spec fn async_verdict(s: Seen) -> (Status, Seq<char>) {
    if !s.done {
        (Status::Fail, "async test did not call $DONE"@)
    } else {
        match s.done_error {
            Some(d) => (Status::Fail, "$DONE called with error: "@ + d@),
            None => unhandled_verdict(s),
        }
    }
}

/// The verdict that unhandled rejections give.
pub open spec fn unhandled_verdict(s: Seen) -> (Status, Seq<char>) {
    if s.unhandled == 0 {
        (Status::Pass, Seq::empty())
    } else {
        (Status::Fail, "unhandled rejection ("@ + decimal(s.unhandled as nat) + "): "@ + s.first_unhandled@)
    }
}

/// The verdict on a run.
pub open spec fn verdict(m: MetaView, s: Seen) -> (Status, Seq<char>) {
    match m.negative_phase {
        Some(p) => if p == "parse"@ {
            if s.error is Some { (Status::Pass, Seq::empty()) } else { (Status::Fail, "expected a parse error"@) }
        } else if p == "runtime"@ {
            if s.error is Some { (Status::Pass, Seq::empty()) } else { (Status::Fail, "expected an exception to be thrown"@) }
        } else {
            (Status::Skip, "negative phase not detectable"@)
        },
        None => match s.error {
            Some(e) => (Status::Fail, e@),
            None => if m.is_async { async_verdict(s) } else { (Status::Pass, Seq::empty()) },
        },
    }
}

/// Reports unhandled rejections, if there are any.
fn check_unhandled(s: &Seen) -> (r: (Status, String))
    ensures
        (r.0, r.1@) == unhandled_verdict(*s),
{
    if s.unhandled == 0 {
        (Status::Pass, String::new())
    } else {
        let n = decimal_text(s.unhandled);
        let a = joined("unhandled rejection (", n.as_str());
        let b = joined(a.as_str(), "): ");
        (Status::Fail, joined(b.as_str(), s.first_unhandled.as_str()))
    }
}

/// Judges an async test whose evaluation succeeded.
fn check_async_completion(s: &Seen) -> (r: (Status, String))
    ensures
        (r.0, r.1@) == async_verdict(*s),
{
    if !s.done {
        return (Status::Fail, owned("async test did not call $DONE"));
    }
    match &s.done_error {
        Some(d) => (Status::Fail, joined("$DONE called with error: ", d.as_str())),
        None => check_unhandled(s),
    }
}

/// Judges a run.
pub fn evaluate(meta: &Meta, s: &Seen) -> (r: (Status, String))
    ensures
        (r.0, r.1@) == verdict(meta@, *s),
{
    match &meta.negative_phase {
        Some(p) => if crate::atoms::same_text(p.as_str(), "parse") {
            if s.error.is_some() { (Status::Pass, String::new()) } else { (Status::Fail, owned("expected a parse error")) }
        } else if crate::atoms::same_text(p.as_str(), "runtime") {
            if s.error.is_some() { (Status::Pass, String::new()) } else { (Status::Fail, owned("expected an exception to be thrown")) }
        } else {
            (Status::Skip, owned("negative phase not detectable"))
        },
        None => match &s.error {
            Some(e) => (Status::Fail, e.clone()),
            None => if meta.is_async { check_async_completion(s) } else { (Status::Pass, String::new()) },
        },
    }
}

/// A test that expects a failure passes exactly when the engine fails, and a
/// test without expectations fails when it does.
pub proof fn law_negative_tests(m: MetaView, s: Seen)
    ensures
        probe_of(m) != Probe::Nothing && m.negative_phase is Some ==> (verdict(m, s).0 == Status::Pass <==> s.error is Some),
        m.negative_phase is None && s.error is Some ==> verdict(m, s).0 == Status::Fail,
        verdict(m, s).0 == Status::Skip <==> probe_of(m) == Probe::Nothing,
{
}

/// The line that reports an outcome.
pub open spec fn report(o: OutcomeView) -> Seq<char> {
    let tag = match o.status {
        Status::Pass => "PASS"@,
        Status::Fail => "FAIL"@,
        Status::Skip => "SKIP"@,
    };
    let mode = if o.strict { "true"@ } else { "false"@ };
    let detail = if o.detail.len() == 0 { Seq::empty() } else { " ("@ + o.detail + ")"@ };
    tag + " (strict="@ + mode + ") "@ + o.path + detail
}

/// The line that reports an outcome.
pub fn outcome_line(o: &TestOutcome) -> (r: String)
    ensures
        r@ == report(o@),
{
    let tag = match o.status {
        Status::Pass => "PASS",
        Status::Fail => "FAIL",
        Status::Skip => "SKIP",
    };
    let a = joined(tag, " (strict=");
    let b = joined(a.as_str(), if o.strict { "true" } else { "false" });
    let c = joined(b.as_str(), ") ");
    let mut d = joined(c.as_str(), o.path.as_str());
    if !o.detail.as_str().is_empty() {
        let e = joined(" (", o.detail.as_str());
        let f = joined(e.as_str(), ")");
        d.append(f.as_str());
    } else {
        assert(d@ =~= d@ + Seq::<char>::empty());
    }
    d
}

} // verus!
