//! The command line of the conformance runner and the protocol between the
//! runner and its worker processes.
use vstd::prelude::*;
use crate::atoms::same_text;
use crate::harness::{OutcomeView, Status, TestOutcome};
use crate::scan::{begins, find_from, position, stands_at};
use crate::text::{
    chars_of, decimal, decimal_text, index_of_key, joined, number_of, owned, parse_index,
    parse_number, string_from, texts,
};

verus! {

/// The shard that a text of the form `index/count` names: the index is below the
/// count.
pub open spec fn shard_spec(s: Seq<char>) -> Option<(usize, usize)> {
    match position(s, "/"@, 0) {
        None => None,
        Some(c) => match (index_of_key(s.subrange(0, c)), index_of_key(s.subrange(c + 1, s.len() as int))) {
            (Some(index), Some(count)) => if index < count { Some((index, count)) } else { None },
            _ => None,
        },
    }
}

/// Reads a shard.
pub fn parse_shard_spec(value: &str) -> (r: Option<(usize, usize)>)
    ensures
        r == shard_spec(value@),
{
    let v = chars_of(value);
    let n = v.len();
    proof {
        reveal_strlit("/");
    }
    match find_from(&v, "/", 0) {
        None => None,
        Some(c) => {
            let a = string_from(&v, 0, c);
            let b = string_from(&v, c + 1, n);
            match (parse_index(a.as_str()), parse_index(b.as_str())) {
                (Some(index), Some(count)) => if index < count { Some((index, count)) } else { None },
                _ => None,
            }
        },
    }
}

/// The number of jobs that a text names: a positive number.
pub open spec fn jobs_spec(s: Seq<char>) -> Option<usize> {
    match index_of_key(s) {
        Some(n) => if n > 0 { Some(n) } else { None },
        None => None,
    }
}

/// Reads a number of jobs.
pub fn parse_jobs(value: &str) -> (r: Option<usize>)
    ensures
        r == jobs_spec(value@),
{
    match parse_index(value) {
        Some(n) => if n > 0 { Some(n) } else { None },
        None => None,
    }
}

/// The timeout that a text names: a positive number of seconds.
pub open spec fn timeout_spec(s: Seq<char>) -> Option<u64> {
    match number_of(s) {
        Some(n) => if n > 0 { Some(n) } else { None },
        None => None,
    }
}

fn parse_timeout(value: &str) -> (r: Option<u64>)
    ensures
        r == timeout_spec(value@),
{
    match parse_number(value) {
        Some(n) => if n > 0 { Some(n) } else { None },
        None => None,
    }
}

/// What the command line asks for.
pub struct Options {
    pub verbose: bool,
    pub root: String,
    pub filters: Vec<String>,
    pub timeout_secs: u64,
    pub jobs: usize,
    pub shard: Option<(usize, usize)>,
}

/// The contents of [`Options`].
#[verifier::ext_equal]
pub struct OptionsView {
    pub verbose: bool,
    pub root: Seq<char>,
    pub filters: Seq<Seq<char>>,
    pub timeout_secs: u64,
    pub jobs: usize,
    pub shard: Option<(usize, usize)>,
}

impl Options {
    /// The contents.
    pub open spec fn view(&self) -> OptionsView {
        OptionsView {
            verbose: self.verbose,
            root: self.root@,
            filters: texts(self.filters@),
            timeout_secs: self.timeout_secs,
            jobs: self.jobs,
            shard: self.shard,
        }
    }
}

/// The options when nothing is asked for.
pub open spec fn default_options() -> OptionsView {
    OptionsView {
        verbose: false,
        root: "vendor/test262"@,
        filters: Seq::empty(),
        timeout_secs: 60,
        jobs: 2,
        shard: None,
    }
}

/// An option that takes a value.
#[derive(Clone, Copy, PartialEq, Eq, Structural, Debug)]
pub enum Key {
    Root,
    Timeout,
    Jobs,
    Shard,
}

/// The effect of an option's value, or the complaint about it.
pub open spec fn with_value(o: OptionsView, k: Key, v: Seq<char>) -> Result<OptionsView, Seq<char>> {
    match k {
        Key::Root => Ok(OptionsView { root: v, ..o }),
        Key::Timeout => match timeout_spec(v) {
            Some(t) => Ok(OptionsView { timeout_secs: t, ..o }),
            None => Err("invalid --timeout value: "@ + v),
        },
        Key::Jobs => match jobs_spec(v) {
            Some(j) => Ok(OptionsView { jobs: j, ..o }),
            None => Err("invalid --jobs value: "@ + v),
        },
        Key::Shard => match shard_spec(v) {
            Some(s) => Ok(OptionsView { shard: Some(s), ..o }),
            None => Err("invalid --shard value: "@ + v + " (expected zero-based N/M with N < M)"@),
        },
    }
}

/// The option that an argument names, with its value in the next argument.
pub open spec fn bare_key(a: Seq<char>) -> Option<Key> {
    if a == "--test262"@ {
        Some(Key::Root)
    } else if a == "--timeout"@ {
        Some(Key::Timeout)
    } else if a == "--jobs"@ {
        Some(Key::Jobs)
    } else if a == "--shard"@ {
        Some(Key::Shard)
    } else {
        None
    }
}

/// The complaint about an option without a value.
pub open spec fn lacks_value(k: Key) -> Seq<char> {
    match k {
        Key::Root => "--test262 requires a path"@,
        Key::Timeout => "--timeout requires a number of seconds"@,
        Key::Jobs => "--jobs requires a positive integer"@,
        Key::Shard => "--shard requires N/M, for example 3/16"@,
    }
}

/// The option that an argument of the form `--key=value` names, and its value.
pub open spec fn joined_key(a: Seq<char>) -> Option<(Key, Seq<char>)> {
    if stands_at(a, "--test262="@, 0) {
        Some((Key::Root, a.subrange(10, a.len() as int)))
    } else if stands_at(a, "--timeout="@, 0) {
        Some((Key::Timeout, a.subrange(10, a.len() as int)))
    } else if stands_at(a, "--jobs="@, 0) {
        Some((Key::Jobs, a.subrange(7, a.len() as int)))
    } else if stands_at(a, "--shard="@, 0) {
        Some((Key::Shard, a.subrange(8, a.len() as int)))
    } else {
        None
    }
}

/// The options that the arguments from position `i` on give.
pub open spec fn options_from(o: OptionsView, args: Seq<Seq<char>>, i: int) -> Result<OptionsView, Seq<char>>
    decreases args.len() - i,
{
    if i < 0 || i >= args.len() {
        Ok(o)
    } else {
        let a = args[i];
        if a == "-v"@ || a == "--verbose"@ {
            options_from(OptionsView { verbose: true, ..o }, args, i + 1)
        } else {
            match bare_key(a) {
                Some(k) => if i + 1 >= args.len() {
                    Err(lacks_value(k))
                } else {
                    match with_value(o, k, args[i + 1]) {
                        Ok(o2) => options_from(o2, args, i + 2),
                        Err(e) => Err(e),
                    }
                },
                None => match joined_key(a) {
                    Some((k, v)) => match with_value(o, k, v) {
                        Ok(o2) => options_from(o2, args, i + 1),
                        Err(e) => Err(e),
                    },
                    None => if a.len() > 1 && a[0] == '-' {
                        Err("unknown option: "@ + a)
                    } else {
                        options_from(OptionsView { filters: o.filters.push(a), ..o }, args, i + 1)
                    },
                },
            }
        }
    }
}

fn set_value(o: &mut Options, k: Key, v: &str) -> (r: Result<(), String>)
    ensures
        match with_value(old(o)@, k, v@) {
            Ok(o2) => r is Ok && final(o)@ == o2,
            Err(e) => r is Err && r->Err_0@ == e,
        },
{
    match k {
        Key::Root => {
            o.root = owned(v);
            Ok(())
        },
        Key::Timeout => match parse_timeout(v) {
            Some(t) => {
                o.timeout_secs = t;
                Ok(())
            },
            None => Err(joined("invalid --timeout value: ", v)),
        },
        Key::Jobs => match parse_jobs(v) {
            Some(j) => {
                o.jobs = j;
                Ok(())
            },
            None => Err(joined("invalid --jobs value: ", v)),
        },
        Key::Shard => match parse_shard_spec(v) {
            Some(s) => {
                o.shard = Some(s);
                Ok(())
            },
            None => {
                let a = joined("invalid --shard value: ", v);
                Err(joined(a.as_str(), " (expected zero-based N/M with N < M)"))
            },
        },
    }
}

fn bare(a: &str) -> (r: Option<Key>)
    ensures
        r == bare_key(a@),
{
    if same_text(a, "--test262") {
        Some(Key::Root)
    } else if same_text(a, "--timeout") {
        Some(Key::Timeout)
    } else if same_text(a, "--jobs") {
        Some(Key::Jobs)
    } else if same_text(a, "--shard") {
        Some(Key::Shard)
    } else {
        None
    }
}

fn complaint(k: Key) -> (r: String)
    ensures
        r@ == lacks_value(k),
{
    match k {
        Key::Root => owned("--test262 requires a path"),
        Key::Timeout => owned("--timeout requires a number of seconds"),
        Key::Jobs => owned("--jobs requires a positive integer"),
        Key::Shard => owned("--shard requires N/M, for example 3/16"),
    }
}

fn with_equals(v: &Vec<char>) -> (r: Option<(Key, String)>)
    ensures
        match joined_key(v@) {
            Some((k, t)) => r is Some && (r->0).0 == k && (r->0).1@ == t,
            None => r is None,
        },
{
    let n = v.len();
    proof {
        reveal_strlit("--test262=");
        reveal_strlit("--timeout=");
        reveal_strlit("--jobs=");
        reveal_strlit("--shard=");
    }
    if begins(v, "--test262=") {
        Some((Key::Root, string_from(v, 10, n)))
    } else if begins(v, "--timeout=") {
        Some((Key::Timeout, string_from(v, 10, n)))
    } else if begins(v, "--jobs=") {
        Some((Key::Jobs, string_from(v, 7, n)))
    } else if begins(v, "--shard=") {
        Some((Key::Shard, string_from(v, 8, n)))
    } else {
        None
    }
}

/// Reads the command line: the options, or the complaint to print.
pub fn parse_args(args: &Vec<String>) -> (r: Result<Options, String>)
    ensures
        match options_from(default_options(), texts(args@), 0) {
            Ok(o) => r is Ok && r->Ok_0@ == o,
            Err(e) => r is Err && r->Err_0@ == e,
        },
{
    let ghost av = texts(args@);
    let mut o = Options {
        verbose: false,
        root: owned("vendor/test262"),
        filters: Vec::new(),
        timeout_secs: 60,
        jobs: 2,
        shard: None,
    };
    assert(o@ =~= default_options());
    let total = args.len();
    let mut i: usize = 0;
    while i < total
        invariant
            total == args@.len(),
            av == texts(args@),
            i <= total,
            options_from(default_options(), av, 0) == options_from(o@, av, i as int),
        decreases total - i,
    {
        let ghost o0 = o@;
        let a = args[i].as_str();
        assert(a@ == av[i as int]);
        if same_text(a, "-v") || same_text(a, "--verbose") {
            o.verbose = true;
            assert(o@ =~= (OptionsView { verbose: true, ..o0 }));
            i += 1;
        } else {
            match bare(a) {
                Some(k) => {
                    if i + 1 >= total {
                        return Err(complaint(k));
                    }
                    assert(args@[i + 1]@ == av[i + 1]);
                    match set_value(&mut o, k, args[i + 1].as_str()) {
                        Ok(_) => {},
                        Err(e) => {
                            return Err(e);
                        },
                    }
                    i += 2;
                },
                None => {
                    let v = chars_of(a);
                    match with_equals(&v) {
                        Some((k, t)) => {
                            match set_value(&mut o, k, t.as_str()) {
                                Ok(_) => {},
                                Err(e) => {
                                    return Err(e);
                                },
                            }
                        },
                        None => {
                            if v.len() > 1 && v[0] == '-' {
                                return Err(joined("unknown option: ", a));
                            }
                            let ghost f0 = o.filters@;
                            o.filters.push(owned(a));
                            assert(texts(o.filters@) =~= texts(f0).push(a@));
                            assert(o@ =~= (OptionsView { filters: o0.filters.push(a@), ..o0 }));
                        },
                    }
                    i += 1;
                },
            }
        }
    }
    Ok(o)
}

/// The exit code by which a worker reports its counts.
pub fn exit_code(pass: u32, fail: u32, skip: u32) -> (r: u32)
    requires
        10 + pass * 9 + fail * 3 + skip <= u32::MAX,
    ensures
        r == 10 + pass * 9 + fail * 3 + skip,
{
    10 + pass * 9 + fail * 3 + skip
}

/// The counts that an exit code reports, if it is one of a worker.
pub open spec fn counts(code: int) -> Option<(nat, nat, nat)> {
    if 10 <= code <= 37 {
        let e = code - 10;
        Some(((e / 9) as nat, ((e % 9) / 3) as nat, (e % 3) as nat))
    } else {
        None
    }
}

/// A worker's counts come back from its exit code, as long as there are at most
/// three verdicts, of which fewer than three failed and fewer than three were
/// skipped.
pub proof fn law_exit_code(pass: nat, fail: nat, skip: nat)
    requires
        pass + fail + skip <= 3,
        fail < 3,
        skip < 3,
    ensures
        counts((10 + pass * 9 + fail * 3 + skip) as int) == Some((pass, fail, skip)),
{
}

fn push_outcomes(out: &mut Vec<TestOutcome>, path: &str, n: u32, status: Status, detail: &str)
    ensures
        final(out)@.len() == old(out)@.len() + n,
        forall|i: int| 0 <= i < old(out)@.len() ==> final(out)@[i] == old(out)@[i],
        forall|i: int| old(out)@.len() <= i < final(out)@.len() ==> (#[trigger] final(out)@[i])@ == (OutcomeView { path: path@, strict: false, status, detail: detail@ }),
{
    let ghost before = out@;
    let mut k: u32 = 0;
    while k < n
        invariant
            k <= n,
            out@.len() == before.len() + k,
            forall|i: int| 0 <= i < before.len() ==> out@[i] == before[i],
            forall|i: int| before.len() <= i < out@.len() ==> (#[trigger] out@[i])@ == (OutcomeView { path: path@, strict: false, status, detail: detail@ }),
        decreases n - k,
    {
        out.push(TestOutcome { path: owned(path), strict: false, status, detail: owned(detail) });
        k += 1;
    }
}

/// The outcome at a position of a decoded list.
pub open spec fn decoded(path: Seq<char>, c: (nat, nat, nat), i: int) -> OutcomeView {
    if i < c.0 {
        OutcomeView { path, strict: false, status: Status::Pass, detail: Seq::empty() }
    } else if i < c.0 + c.1 {
        OutcomeView { path, strict: false, status: Status::Fail, detail: "failed in worker process"@ }
    } else {
        OutcomeView { path, strict: false, status: Status::Skip, detail: Seq::empty() }
    }
}

/// The outcomes that a worker's exit code reports: first what passed, then what
/// failed, then what was skipped.
pub fn decode_exit(path: &str, code: i32) -> (r: Option<Vec<TestOutcome>>)
    ensures
        r is Some <==> counts(code as int) is Some,
        match r {
            Some(v) => {
                let c = counts(code as int)->0;
                v@.len() == c.0 + c.1 + c.2 && forall|i: int| 0 <= i < v@.len() ==> (#[trigger] v@[i])@ == decoded(path@, c, i)
            },
            None => true,
        },
{
    if code < 10 || code > 37 {
        return None;
    }
    let e: u32 = (code - 10) as u32;
    let mut out: Vec<TestOutcome> = Vec::new();
    proof {
        reveal_strlit("");
        assert(""@ =~= Seq::<char>::empty());
    }
    push_outcomes(&mut out, path, e / 9, Status::Pass, "");
    push_outcomes(&mut out, path, (e % 9) / 3, Status::Fail, "failed in worker process");
    push_outcomes(&mut out, path, e % 3, Status::Skip, "");
    Some(out)
}

/// The decimal text of a signed number.
pub open spec fn signed_text(n: int) -> Seq<char> {
    if n < 0 { "-"@ + decimal((-n) as nat) } else { decimal(n as nat) }
}

fn signed_decimal(n: i32) -> (r: String)
    ensures
        r@ == signed_text(n as int),
{
    if n < 0 {
        let d = decimal_text((-(n as i64)) as u64);
        joined("-", d.as_str())
    } else {
        decimal_text(n as u64)
    }
}

/// What is said of a worker that ended without a result.
pub open spec fn abnormal_detail(signal: Option<i32>, code: Option<i32>) -> Seq<char> {
    match signal {
        Some(s) => if s == 6 {
            "test runner aborted (SIGABRT)"@
        } else if s == 9 {
            "test runner killed (SIGKILL; possible OOM)"@
        } else if s == 11 {
            "test runner crashed (SIGSEGV)"@
        } else {
            "test runner terminated by signal "@ + signed_text(s as int)
        },
        None => match code {
            Some(c) => "test runner exited without a result (code "@ + signed_text(c as int) + ")"@,
            None => "test runner exited without a result"@,
        },
    }
}

/// Describes how a worker ended without a result.
pub fn abnormal_exit_detail(signal: Option<i32>, code: Option<i32>) -> (r: String)
    ensures
        r@ == abnormal_detail(signal, code),
{
    match signal {
        Some(s) => if s == 6 {
            owned("test runner aborted (SIGABRT)")
        } else if s == 9 {
            owned("test runner killed (SIGKILL; possible OOM)")
        } else if s == 11 {
            owned("test runner crashed (SIGSEGV)")
        } else {
            let d = signed_decimal(s);
            joined("test runner terminated by signal ", d.as_str())
        },
        None => match code {
            Some(c) => {
                let d = signed_decimal(c);
                let a = joined("test runner exited without a result (code ", d.as_str());
                joined(a.as_str(), ")")
            },
            None => owned("test runner exited without a result"),
        },
    }
}

} // verus!
