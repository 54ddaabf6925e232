//! The laws of the test runner: which tests run and how, and what their verdicts are.
use vstd::prelude::*;
use crate::frontmatter::{after_line, front_end, plain_meta, section_of, with_item, FrontView, MetaView, Section};
use crate::harness::{modes_of, needed, probe_of, selection, shard_of, some_occurs, tally, verdict, Probe, Seen, Status, TestOutcome};
use crate::runner::{bare_key, joined_key, options_from, shard_spec, with_value, Key, OptionsView};
use crate::scan::{parts, position, stands_at, trimmed, trimmed_back, trimmed_front, white};
use crate::text::texts;

verus! {

/// A test runs in strict mode unless it says that it must not or that its source is to
/// be left alone, and in the other mode unless it says that it must not; each mode comes
/// once, and the strict one last.
pub proof fn law_modes(m: MetaView)
    ensures
        modes_of(m).contains(true) <==> m.only_strict || !(m.no_strict || m.raw),
        modes_of(m).contains(false) <==> !m.only_strict,
        modes_of(m).no_duplicates(),
        modes_of(m).len() > 0,
        modes_of(m).contains(true) ==> modes_of(m).last(),
{
    if m.only_strict {
        assert(modes_of(m)[0]);
    } else {
        assert(!modes_of(m)[0]);
        if !(m.no_strict || m.raw) {
            assert(modes_of(m)[1]);
        }
    }
}

/// A test that is to run through passes exactly where no error ended it and, where it
/// is asynchronous, it reported its end, without an error, and left no rejection
/// unhandled.
pub proof fn law_verdicts(m: MetaView, s: Seen)
    requires
        m.negative_phase is None,
    ensures
        verdict(m, s).0 == Status::Pass <==> s.error is None && (m.is_async ==> s.done && s.done_error is None && s.unhandled == 0),
        verdict(m, s).0 != Status::Pass ==> verdict(m, s).0 == Status::Fail,
        s.error matches Some(e) ==> verdict(m, s).1 == e@,
        verdict(m, s).0 == Status::Pass ==> verdict(m, s).1.len() == 0,
{
}

/// What a test asks for follows from the phase in which it is to fail: a test that is
/// to fail in parsing is not evaluated.
pub proof fn law_probes(m: MetaView)
    ensures
        m.negative_phase is None ==> probe_of(m) == Probe::Evaluate,
        m.negative_phase == Some("parse"@) ==> probe_of(m) == Probe::Parse,
        m.negative_phase == Some("runtime"@) ==> probe_of(m) == Probe::Evaluate,
        probe_of(m) == Probe::Nothing ==> m.negative_phase is Some && m.negative_phase->0 != "parse"@ && m.negative_phase->0 != "runtime"@,
        (m.negative_phase is Some && m.negative_phase->0 != "parse"@ && m.negative_phase->0 != "runtime"@) ==> probe_of(m) == Probe::Nothing,
{
    reveal_strlit("parse");
    reveal_strlit("runtime");
    assert("parse"@.len() == 5 && "runtime"@.len() == 7);
}

/// A test gets the two common harness files first, and then those that it lists, in
/// their order; a raw test gets none.
pub proof fn law_harness_files(m: MetaView, i: int)
    ensures
        m.raw ==> needed(m).len() == 0,
        !m.raw ==> needed(m).len() == m.includes.len() + 2 && needed(m)[0] == "assert.js"@ && needed(m)[1] == "sta.js"@,
        !m.raw && 0 <= i < m.includes.len() ==> needed(m)[i + 2] == m.includes[i],
{
}

/// A flag of a test turns on what it names and nothing else; other words are no flags.
pub proof fn law_flags(m: MetaView, item: Seq<char>)
    ensures
        ({
            let t = with_item(m, Section::Flags, item);
            &&& t.only_strict == (m.only_strict || item == "onlyStrict"@)
            &&& t.no_strict == (m.no_strict || item == "noStrict"@)
            &&& t.raw == (m.raw || item == "raw"@)
            &&& t.module == (m.module || item == "module"@)
            &&& t.is_async == (m.is_async || item == "async"@)
            &&& t.includes == m.includes
            &&& t.features == m.features
            &&& t.negative_phase == m.negative_phase
        }),
{
    reveal_strlit("onlyStrict");
    reveal_strlit("noStrict");
    reveal_strlit("raw");
    reveal_strlit("module");
    reveal_strlit("async");
    assert("onlyStrict"@.len() == 10 && "noStrict"@.len() == 8 && "raw"@.len() == 3 && "module"@.len() == 6 && "async"@.len() == 5);
}

/// The items of a list go to what their key names, behind those before them.
pub proof fn law_sections(m: MetaView, item: Seq<char>)
    ensures
        with_item(m, section_of("includes"@), item).includes == m.includes.push(item),
        with_item(m, section_of("includes"@), item).features == m.features,
        with_item(m, section_of("features"@), item).features == m.features.push(item),
        with_item(m, section_of("features"@), item).includes == m.includes,
        section_of("flags"@) == Section::Flags,
        section_of("negative"@) == Section::Negative,
        with_item(m, Section::Negative, item) == m,
        with_item(m, Section::Nothing, item) == m,
        plain_meta().includes.len() == 0,
        modes_of(plain_meta()).len() == 2,
{
    reveal_strlit("includes");
    reveal_strlit("features");
    reveal_strlit("flags");
    reveal_strlit("negative");
    assert("includes"@.len() == 8 && "includes"@[0] == 'i');
    assert("features"@.len() == 8 && "features"@[0] == 'f');
    assert("negative"@.len() == 8 && "negative"@[0] == 'n');
    assert("flags"@.len() == 5);
}

/// Exactly the files that are not excluded and that a filter matches, where there are
/// filters, are selected.
pub proof fn law_selection(files: Seq<String>, excludes: Seq<String>, filters: Seq<String>, path: Seq<char>)
    ensures
        selection(files, excludes, filters).contains(path) <==> texts(files).contains(path) && !some_occurs(path, excludes) && (filters.len() == 0 || some_occurs(path, filters)),
        selection(files, excludes, filters).len() <= files.len(),
    decreases files.len(),
{
    if files.len() > 0 {
        let front = files.drop_last();
        law_selection(front, excludes, filters, path);
        let last = files.last()@;
        assert(texts(files) =~= texts(front).push(last));
        lemma_pushed(texts(front), last, path);
        lemma_pushed(selection(front, excludes, filters), last, path);
    }
}

proof fn lemma_pushed(s: Seq<Seq<char>>, x: Seq<char>, y: Seq<char>)
    ensures
        s.push(x).contains(y) <==> s.contains(y) || x == y,
{
    let t = s.push(x);
    if s.contains(y) {
        let i = choose|i: int| 0 <= i < s.len() && s[i] == y;
        assert(t[i] == y);
    }
    if x == y {
        assert(t[s.len() as int] == y);
    }
    if t.contains(y) {
        let i = choose|i: int| 0 <= i < t.len() && t[i] == y;
        if i < s.len() {
            assert(s[i] == y);
        }
    }
}

/// A file is in the shard whose index its position leaves over: the files of a shard
/// are as far apart as there are shards.
pub proof fn law_shards(files: Seq<String>, index: int, count: int, i: int)
    requires
        count > 0,
        0 <= i < files.len(),
        i % count == index,
    ensures
        shard_of(files, index, count).contains(files[i]@),
        shard_of(files, index, count).len() * count <= files.len() + count - 1,
    decreases files.len(),
{
    lemma_shard_size(files, index, count);
    lemma_in_shard(files, index, count, i);
}

proof fn lemma_in_shard(files: Seq<String>, index: int, count: int, i: int)
    requires
        count > 0,
        0 <= i < files.len(),
        i % count == index,
    ensures
        shard_of(files, index, count).contains(files[i]@),
    decreases files.len(),
{
    let front = files.drop_last();
    if i < files.len() - 1 {
        lemma_in_shard(front, index, count, i);
        assert(front[i] == files[i]);
    }
    lemma_pushed(shard_of(front, index, count), files.last()@, files[i]@);
}

proof fn lemma_shard_size(files: Seq<String>, index: int, count: int)
    requires
        count > 0,
        0 <= index < count,
    ensures
        shard_of(files, index, count).len() == (files.len() + count - 1 - index) / count,
        shard_of(files, index, count).len() * count <= files.len() + count - 1,
    decreases files.len(),
{
    let n = files.len() as int;
    if n > 0 {
        lemma_shard_size(files.drop_last(), index, count);
        let a = n + count - 2 - index;
        let b = a + 1;
        vstd::arithmetic::div_mod::lemma_fundamental_div_mod(a, count);
        vstd::arithmetic::div_mod::lemma_mod_bound(a, count);
        let q = a / count;
        let r = a % count;
        if (n - 1) % count == index {
            vstd::arithmetic::div_mod::lemma_fundamental_div_mod(n - 1, count);
            let p = (n - 1) / count;
            assert(a == count * p + (count - 1)) by (nonlinear_arith)
                requires
                    n - 1 == count * p + index,
                    a == n + count - 2 - index,
            ;
            assert(b == count * (p + 1)) by (nonlinear_arith)
                requires
                    a == count * p + (count - 1),
                    b == a + 1,
            ;
            vstd::arithmetic::div_mod::lemma_fundamental_div_mod_converse(a, count, p, count - 1);
            vstd::arithmetic::div_mod::lemma_fundamental_div_mod_converse(b, count, p + 1, 0);
        } else {
            if r == count - 1 {
                assert(n - 1 == count * q + index) by (nonlinear_arith)
                    requires
                        a == count * q + r,
                        r == count - 1,
                        a == n + count - 2 - index,
                ;
                vstd::arithmetic::div_mod::lemma_fundamental_div_mod_converse(n - 1, count, q, index);
            }
            vstd::arithmetic::div_mod::lemma_fundamental_div_mod_converse(b, count, q, r + 1);
        }
    } else {
        vstd::arithmetic::div_mod::lemma_fundamental_div_mod_converse(count - 1 - index, count, 0, count - 1 - index);
    }
    let x = n + count - 1 - index;
    vstd::arithmetic::div_mod::lemma_fundamental_div_mod(x, count);
    vstd::arithmetic::div_mod::lemma_mod_bound(x, count);
    assert((x / count) * count <= x) by (nonlinear_arith)
        requires
            x == count * (x / count) + x % count,
            0 <= x % count,
    ;
}

/// Every outcome is counted once: the passed, the failed and the skipped add up to all.
pub proof fn law_counts(s: Seq<TestOutcome>)
    ensures
        tally(s, Status::Pass) + tally(s, Status::Fail) + tally(s, Status::Skip) == s.len(),
    decreases s.len(),
{
    if s.len() > 0 {
        law_counts(s.drop_last());
    }
}

/// The word of an option.
pub open spec fn option_word(k: Key) -> Seq<char> {
    match k {
        Key::Root => "--test262"@,
        Key::Timeout => "--timeout"@,
        Key::Jobs => "--jobs"@,
        Key::Shard => "--shard"@,
    }
}

/// An option's value may stand behind the option or be joined with it by the sign of
/// equality: both mean the same.
pub proof fn law_option_values(o: OptionsView, k: Key, v: Seq<char>)
    ensures
        options_from(o, seq![option_word(k), v], 0) == options_from(o, seq![option_word(k).push('=') + v], 0),
        bare_key(option_word(k)) == Some(k),
        joined_key(option_word(k).push('=') + v) == Some((k, v)),
{
    reveal_strlit("--test262");
    reveal_strlit("--timeout");
    reveal_strlit("--jobs");
    reveal_strlit("--shard");
    reveal_strlit("--test262=");
    reveal_strlit("--timeout=");
    reveal_strlit("--jobs=");
    reveal_strlit("--shard=");
    reveal_strlit("-v");
    reveal_strlit("--verbose");
    assert("--test262"@.len() == 9 && "--test262"@[4] == 's');
    assert("--timeout"@.len() == 9 && "--timeout"@[4] == 'm');
    assert("--verbose"@.len() == 9 && "--verbose"@[4] == 'r');
    assert("--jobs"@.len() == 6);
    assert("--shard"@.len() == 7);
    assert("-v"@.len() == 2);
    assert("--test262"@.push('=') =~= "--test262="@);
    assert("--timeout"@.push('=') =~= "--timeout="@);
    assert("--jobs"@.push('=') =~= "--jobs="@);
    assert("--shard"@.push('=') =~= "--shard="@);
    assert("--test262="@.len() == 10 && "--test262="@[2] == 't' && "--test262="@[3] == 'e' && "--test262="@[9] == '=');
    assert("--timeout="@.len() == 10 && "--timeout="@[2] == 't' && "--timeout="@[3] == 'i' && "--timeout="@[9] == '=');
    assert("--jobs="@.len() == 7 && "--jobs="@[2] == 'j' && "--jobs="@[6] == '=');
    assert("--shard="@.len() == 8 && "--shard="@[2] == 's' && "--shard="@[7] == '=');
    assert("--test262"@[2] == 't' && "--timeout"@[2] == 't' && "--jobs"@[2] == 'j' && "--shard"@[2] == 's' && "--verbose"@[2] == 'v');
    let w = option_word(k);
    let eq = w.push('=');
    let a = eq + v;
    assert(a.subrange(0, eq.len() as int) =~= eq);
    assert(a.subrange(eq.len() as int, a.len() as int) =~= v);
    assert(forall|i: int| 0 <= i < eq.len() ==> #[trigger] a[i] == eq[i]);
    assert(a[w.len() as int] == '=');
    assert(a.len() >= eq.len());
    assert forall|p: Seq<char>| #[trigger] stands_at(a, p, 0) && p.len() > 3 && a.len() > 3 implies a[2] == p[2] && a[3] == p[3] by {
        assert(a.subrange(0, p.len() as int)[2] == p[2]);
        assert(a.subrange(0, p.len() as int)[3] == p[3]);
    }
    assert(joined_key(a) == Some((k, v)));
    assert(!(w.contains('='))) by {
        assert forall|i: int| 0 <= i < w.len() implies w[i] != '=' by {
            lemma_no_equals(k, i);
        }
    }
    assert(bare_key(a) is None) by {
        assert(a[w.len() as int] == '=');
        lemma_words_without_equals();
        if a == "--test262"@ { assert("--test262"@.contains('=')); }
        if a == "--timeout"@ { assert("--timeout"@.contains('=')); }
        if a == "--jobs"@ { assert("--jobs"@.contains('=')); }
        if a == "--shard"@ { assert("--shard"@.contains('=')); }
    }
    let one = seq![a];
    let two = seq![w, v];
    assert(a != "-v"@ && a != "--verbose"@);
    assert(w != "-v"@ && w != "--verbose"@);
    reveal_with_fuel(options_from, 3);
}

proof fn lemma_no_equals(k: Key, i: int)
    requires
        0 <= i < option_word(k).len(),
    ensures
        option_word(k)[i] != '=',
{
    reveal_strlit("--test262");
    reveal_strlit("--timeout");
    reveal_strlit("--jobs");
    reveal_strlit("--shard");
}

proof fn lemma_words_without_equals()
    ensures
        !"--test262"@.contains('='),
        !"--timeout"@.contains('='),
        !"--jobs"@.contains('='),
        !"--shard"@.contains('='),
{
    assert forall|i: int| 0 <= i < "--test262"@.len() implies "--test262"@[i] != '=' by {
        lemma_no_equals(Key::Root, i);
    }
    assert forall|i: int| 0 <= i < "--timeout"@.len() implies "--timeout"@[i] != '=' by {
        lemma_no_equals(Key::Timeout, i);
    }
    assert forall|i: int| 0 <= i < "--jobs"@.len() implies "--jobs"@[i] != '=' by {
        lemma_no_equals(Key::Jobs, i);
    }
    assert forall|i: int| 0 <= i < "--shard"@.len() implies "--shard"@[i] != '=' by {
        lemma_no_equals(Key::Shard, i);
    }
}

/// An option sets what it names and leaves the others.
pub proof fn law_options(o: OptionsView, k: Key, v: Seq<char>)
    ensures
        with_value(o, k, v) matches Ok(p) ==> {
            &&& p.verbose == o.verbose
            &&& p.filters == o.filters
            &&& (k != Key::Root ==> p.root == o.root)
            &&& (k == Key::Root ==> p.root == v)
            &&& (k != Key::Timeout ==> p.timeout_secs == o.timeout_secs)
            &&& (k == Key::Timeout ==> p.timeout_secs > 0)
            &&& (k != Key::Jobs ==> p.jobs == o.jobs)
            &&& (k == Key::Jobs ==> p.jobs > 0)
            &&& (k != Key::Shard ==> p.shard == o.shard)
            &&& (k == Key::Shard ==> (p.shard matches Some(s) && s.0 < s.1))
        },
        shard_spec(v) matches Some(s) ==> s.0 < s.1,
{
}

/// The place at which a text is found is one where it stands, and none before it is.
pub proof fn law_position(s: Seq<char>, part: Seq<char>, from: int)
    requires
        from >= 0,
    ensures
        position(s, part, from) matches Some(p) ==> p >= from && stands_at(s, part, p) && forall|i: int| from <= i < p ==> !#[trigger] stands_at(s, part, i),
        position(s, part, from) is None ==> forall|i: int| from <= i ==> !#[trigger] stands_at(s, part, i),
    decreases s.len() + 1 - from,
{
    if from + part.len() <= s.len() && !stands_at(s, part, from) {
        law_position(s, part, from + 1);
    }
}

/// Trimming takes white space away at both ends, and nothing else.
pub proof fn law_trimming(s: Seq<char>)
    ensures
        trimmed(s).len() > 0 ==> !white(trimmed(s)[0]) && !white(trimmed(s).last()),
        exists|a: Seq<char>, b: Seq<char>| s == #[trigger] (a + trimmed(s) + b) && (forall|i: int| 0 <= i < a.len() ==> white(#[trigger] a[i])) && (forall|i: int| 0 <= i < b.len() ==> white(#[trigger] b[i])),
{
    let f = trimmed_front(s);
    let a = lemma_front(s);
    let b = lemma_back(f);
    assert(s =~= a + trimmed(s) + b);
    if trimmed(s).len() > 0 {
        assert(trimmed(s)[0] == f[0]);
    }
}

proof fn lemma_front(s: Seq<char>) -> (a: Seq<char>)
    ensures
        s == a + trimmed_front(s),
        forall|i: int| 0 <= i < a.len() ==> white(#[trigger] a[i]),
        trimmed_front(s).len() > 0 ==> !white(trimmed_front(s)[0]),
    decreases s.len(),
{
    if s.len() > 0 && white(s[0]) {
        let rest = s.subrange(1, s.len() as int);
        let a = lemma_front(rest);
        let r = seq![s[0]] + a;
        assert(s =~= seq![s[0]] + rest);
        assert(r + trimmed_front(s) =~= seq![s[0]] + (a + trimmed_front(rest)));
        r
    } else {
        assert(s =~= Seq::<char>::empty() + s);
        Seq::empty()
    }
}

proof fn lemma_back(s: Seq<char>) -> (b: Seq<char>)
    ensures
        s == trimmed_back(s) + b,
        forall|i: int| 0 <= i < b.len() ==> white(#[trigger] b[i]),
        trimmed_back(s).len() > 0 ==> !white(trimmed_back(s).last()),
    decreases s.len(),
{
    if s.len() > 0 && white(s.last()) {
        let b = lemma_back(s.drop_last());
        let r = b.push(s.last());
        assert(s =~= s.drop_last().push(s.last()));
        assert(trimmed_back(s) + r =~= (trimmed_back(s.drop_last()) + b).push(s.last()));
        r
    } else {
        assert(s =~= s + Seq::<char>::empty());
        Seq::empty()
    }
}

/// Texts with a separator between each two.
pub open spec fn joined_by(list: Seq<Seq<char>>, c: char) -> Seq<char>
    decreases list.len(),
{
    if list.len() == 0 {
        Seq::empty()
    } else if list.len() == 1 {
        list[0]
    } else {
        joined_by(list.drop_last(), c).push(c) + list.last()
    }
}

/// The parts of a text hold no separator, and give the text when they are joined.
pub proof fn law_parts(s: Seq<char>, c: char)
    ensures
        parts(s, c).len() > 0,
        joined_by(parts(s, c), c) == s,
        forall|i: int| 0 <= i < parts(s, c).len() ==> !(#[trigger] parts(s, c)[i]).contains(c),
    decreases s.len(),
{
    if s.len() > 0 {
        let init = parts(s.drop_last(), c);
        law_parts(s.drop_last(), c);
        let all = parts(s, c);
        if s.last() == c {
            assert(all.drop_last() =~= init);
            assert(joined_by(all, c) =~= s);
        } else {
            let last = init.last().push(s.last());
            assert(all.drop_last() =~= init.drop_last());
            assert(joined_by(all, c) =~= joined_by(init, c).push(s.last()));
            assert(s =~= s.drop_last().push(s.last()));
            assert forall|i: int| 0 <= i < all.len() implies !(#[trigger] all[i]).contains(c) by {
                if i == all.len() - 1 {
                    assert(!init[i].contains(c));
                    if last.contains(c) {
                        let j = choose|j: int| 0 <= j < last.len() && last[j] == c;
                        assert(init.last()[j] == c);
                    }
                } else {
                    assert(all[i] == init[i]);
                }
            }
        }
    } else {
        assert(parts(s, c)[0] == s);
    }
}

/// Inside the section on how a test is to fail, the phase is read from its own key and
/// the kind of the error from its own; a key of another section ends it.
pub proof fn law_negative_section(f: FrontView, line: Seq<char>, c: int)
    requires
        f.section == Section::Negative,
        line.len() > 0,
        !stands_at(line, "- "@, 0),
        position(line, ":"@, 0) == Some(c),
        ({
            let val = trimmed(line.subrange(c + 1, line.len() as int));
            !(val.len() >= 2 && val[0] == '[' && val.last() == ']') && val != "|"@ && val != ">"@
        }),
    ensures
        ({
            let key = trimmed(line.subrange(0, c));
            let val = trimmed(line.subrange(c + 1, line.len() as int));
            let t = after_line(f, line);
            &&& t.meta == f.meta
            &&& key == "phase"@ ==> t.neg_phase == val && t.neg_type == f.neg_type && t.section == Section::Negative
            &&& key == "type"@ ==> t.neg_type == val && t.neg_phase == f.neg_phase && t.section == Section::Negative
            &&& key == "flags"@ ==> t.section == Section::Flags && t.neg_phase == f.neg_phase
            &&& key == "includes"@ ==> t.section == Section::Includes && t.neg_type == f.neg_type
        }),
        front_end(f).negative_phase is Some ==> front_end(f).negative_phase == Some(f.neg_phase) || f.meta.negative_phase is Some,
        f.neg_phase.len() > 0 ==> front_end(f).negative_phase == Some(f.neg_phase) && front_end(f).negative_type == Some(f.neg_type),
{
    reveal_strlit("phase");
    reveal_strlit("type");
    reveal_strlit("flags");
    reveal_strlit("includes");
    reveal_strlit("features");
    reveal_strlit("negative");
    assert("phase"@.len() == 5 && "phase"@[0] == 'p');
    assert("flags"@.len() == 5 && "flags"@[0] == 'f');
    assert("type"@.len() == 4);
    assert("includes"@.len() == 8 && "includes"@[0] == 'i');
    assert("features"@.len() == 8 && "features"@[0] == 'f');
    assert("negative"@.len() == 8 && "negative"@[0] == 'n');
}

/// A line that starts with a dash adds an item to the section that is open.
pub proof fn law_item_lines(f: FrontView, line: Seq<char>)
    requires
        stands_at(line, "- "@, 0),
    ensures
        after_line(f, line).meta == with_item(f.meta, f.section, trimmed(line.subrange(2, line.len() as int))),
        after_line(f, line).section == f.section,
        after_line(f, line).neg_phase == f.neg_phase,
        after_line(f, line).neg_type == f.neg_type,
{
    reveal_strlit("- ");
    assert("- "@.len() == 2);
}

} // verus!
