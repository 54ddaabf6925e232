//! Regular expression values.
use vstd::prelude::*;
use regex::{Regex, RegexBuilder};
use crate::atoms::Atoms;
use crate::text::{has_char, owned};
use crate::value::{RegexData, RegexDataView};

verus! {

/// What building a regular expression gives: the compiled form, or the text of
/// the refusal.
pub uninterp spec fn built(pattern: Seq<char>, ignore_case: bool, multi_line: bool, dot_all: bool) -> Result<Regex, Seq<char>>;

/// Calls `regex::RegexBuilder::build` on a pattern, with case folding, line
/// anchors and dots that match line feeds set as given. The outcome is a function
/// of the pattern and the three options.
#[verifier::external_body]
fn build_regex(pattern: &str, ignore_case: bool, multi_line: bool, dot_all: bool) -> (r: Result<Regex, String>)
    ensures
        match r {
            Ok(re) => built(pattern@, ignore_case, multi_line, dot_all) == Ok::<Regex, Seq<char>>(re),
            Err(e) => built(pattern@, ignore_case, multi_line, dot_all) == Err::<Regex, Seq<char>>(e@),
        },
{
    RegexBuilder::new(pattern)
        .case_insensitive(ignore_case)
        .multi_line(multi_line)
        .dot_matches_new_line(dot_all)
        .build()
        .map_err(|e| e.to_string())
}

/// What compiling a pattern with flags gives. Only `i`, `m` and `s` matter.
pub open spec fn compiled(pattern: Seq<char>, flags: Seq<char>) -> Result<Regex, Seq<char>> {
    built(pattern, flags.contains('i'), flags.contains('m'), flags.contains('s'))
}

/// Compiles a pattern according to its flags.
pub fn compile_regex(pattern: &str, flags: &str) -> (r: Result<Regex, String>)
    ensures
        match r {
            Ok(re) => compiled(pattern@, flags@) == Ok::<Regex, Seq<char>>(re),
            Err(e) => compiled(pattern@, flags@) == Err::<Regex, Seq<char>>(e@),
        },
{
    build_regex(pattern, has_char(flags, 'i'), has_char(flags, 'm'), has_char(flags, 's'))
}

/// A pattern as `source` shows it.
pub open spec fn shown_source(pattern: Seq<char>) -> Seq<char> {
    if pattern.len() == 0 { "(?:)"@ } else { pattern }
}

/// The set flags among the first `n` of the flags in canonical order.
pub open spec fn flags_upto(flags: Seq<char>, n: nat) -> Seq<char>
    decreases n,
{
    if n == 0 {
        Seq::empty()
    } else {
        let c = flag_at((n - 1) as int);
        let front = flags_upto(flags, (n - 1) as nat);
        if flags.contains(c) { front.push(c) } else { front }
    }
}

/// The flags in canonical order.
pub open spec fn flag_at(i: int) -> char {
    if i == 0 { 'd' } else if i == 1 { 'g' } else if i == 2 { 'i' } else if i == 3 { 'm' } else if i == 4 { 's' }
    else if i == 5 { 'u' } else if i == 6 { 'v' } else { 'y' }
}

/// The set flags in canonical order.
pub open spec fn canonical_flags(flags: Seq<char>) -> Seq<char> {
    flags_upto(flags, 8)
}

impl RegexData {
    /// A regular expression of the texts of two atoms. A pattern that is refused
    /// gives a value that never matches.
    pub fn new(atoms: &Atoms, pattern: usize, flags: usize) -> (r: Self)
        ensures
            r@ == (RegexDataView {
                pattern,
                flags,
                re: match compiled(atoms.text_of(pattern), atoms.text_of(flags)) {
                    Ok(re) => Some(re),
                    Err(_) => None,
                },
                last_index: 0,
            }),
    {
        let re = match compile_regex(atoms.text(pattern), atoms.text(flags)) {
            Ok(re) => Some(re),
            Err(_) => None,
        };
        RegexData { pattern, flags, re, last_index: 0 }
    }

    /// The pattern as `source` shows it.
    pub fn source(&self, atoms: &Atoms) -> (r: String)
        ensures
            r@ == shown_source(atoms.text_of(self.pattern)),
    {
        let p = atoms.text(self.pattern);
        if p.is_empty() { owned("(?:)") } else { owned(p) }
    }

    /// The set flags in canonical order.
    pub fn flag_string(&self, atoms: &Atoms) -> (r: String)
        ensures
            r@ == canonical_flags(atoms.text_of(self.flags)),
    {
        let flags = atoms.text(self.flags);
        let order: Vec<char> = vec!['d', 'g', 'i', 'm', 's', 'u', 'v', 'y'];
        let mut r = String::new();
        assert(r@ =~= flags_upto(flags@, 0));
        let mut i: usize = 0;
        while i < order.len()
            invariant
                i <= order@.len(),
                order@.len() == 8,
                forall|k: int| 0 <= k < 8 ==> #[trigger] order@[k] == flag_at(k),
                r@ == flags_upto(flags@, i as nat),
            decreases order@.len() - i,
        {
            if has_char(flags, order[i]) {
                r.push(order[i]);
            }
            i += 1;
        }
        r
    }

    /// Whether a flag is set.
    pub fn has_flag(&self, atoms: &Atoms, c: char) -> (r: bool)
        ensures
            r == atoms.text_of(self.flags).contains(c),
    {
        has_char(atoms.text(self.flags), c)
    }
}

/// The canonical flags are those that are set, each once, whatever the order and
/// number in which they were written.
pub proof fn law_canonical_flags(flags: Seq<char>, other: Seq<char>)
    requires
        forall|c: char| flags.contains(c) <==> other.contains(c),
    ensures
        canonical_flags(flags) == canonical_flags(other),
        forall|c: char| canonical_flags(flags).contains(c) ==> flags.contains(c),
{
    lemma_flags_upto(flags, other, 8);
}

proof fn lemma_flags_upto(flags: Seq<char>, other: Seq<char>, n: nat)
    requires
        forall|c: char| flags.contains(c) <==> other.contains(c),
    ensures
        flags_upto(flags, n) == flags_upto(other, n),
        forall|c: char| flags_upto(flags, n).contains(c) ==> flags.contains(c),
    decreases n,
{
    if n > 0 {
        lemma_flags_upto(flags, other, (n - 1) as nat);
        let c = flag_at((n - 1) as int);
        let front = flags_upto(flags, (n - 1) as nat);
        assert forall|x: char| flags_upto(flags, n).contains(x) implies flags.contains(x) by {
            if flags.contains(c) {
                crate::listing::lemma_push_contains(front, c, x);
            }
        }
    }
}

} // verus!
