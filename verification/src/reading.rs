//! What is written in quotes reads back: laws of strings and of members.
use vstd::prelude::*;
use crate::json::{field, has_surrogate, member, quoted_at, string_at, JsonTree, MemberTree};
use crate::lexer::{string_rest, unescaped};

verus! {

/// How a character is written in a quoted string: a quotation mark, a backslash and the
/// characters that break lines or indent are escaped.
pub open spec fn written_char(c: char) -> Seq<char> {
    if c == '\n' {
        seq!['\\', 'n']
    } else if c == '\t' {
        seq!['\\', 't']
    } else if c == '\r' {
        seq!['\\', 'r']
    } else if c == '"' {
        seq!['\\', '"']
    } else if c == '\\' {
        seq!['\\', '\\']
    } else {
        seq![c]
    }
}

/// How a text is written in a quoted string.
pub open spec fn written_text(t: Seq<char>) -> Seq<char>
    decreases t.len(),
{
    if t.len() == 0 {
        Seq::empty()
    } else {
        written_char(t[0]) + written_text(t.skip(1))
    }
}

proof fn lemma_quoted(s: Seq<char>, p: int, t: Seq<char>, acc: Seq<char>)
    requires
        0 <= p,
        p + written_text(t).len() < s.len(),
        s.subrange(p, p + written_text(t).len()) == written_text(t),
        s[p + written_text(t).len()] == '"',
    ensures
        !has_surrogate(s, p),
        string_at(s, p, false, acc) == Some((acc + t, p + written_text(t).len() + 1)),
    decreases t.len(),
{
    if t.len() == 0 {
        assert(acc + t =~= acc);
    } else {
        let w = written_text(t);
        let c = written_char(t[0]);
        let rest = t.skip(1);
        assert(s[p] == s.subrange(p, p + w.len())[0]);
        if c.len() == 2 {
            assert(s[p + 1] == s.subrange(p, p + w.len())[1]);
        }
        let q = p + c.len();
        assert(s.subrange(q, q + written_text(rest).len()) =~= written_text(rest)) by {
            assert forall|i: int| 0 <= i < written_text(rest).len() implies s[q + i] == written_text(rest)[i] by {
                assert(s.subrange(p, p + w.len())[c.len() + i] == w[c.len() + i]);
            }
        }
        lemma_quoted(s, q, rest, acc.push(t[0]));
        assert(acc.push(t[0]) + rest =~= acc + t);
        assert(acc + seq![t[0]] =~= acc.push(t[0]));
    }
}

/// A text that is written in quotation marks is read back as it was, whatever stands
/// behind it.
pub proof fn law_quoted_texts(t: Seq<char>, behind: Seq<char>)
    ensures
        quoted_at(written_text(t).push('"') + behind, 0) == Some((t, written_text(t).len() as int + 1)),
{
    let s = written_text(t).push('"') + behind;
    assert(s.subrange(0, written_text(t).len() as int) =~= written_text(t));
    lemma_quoted(s, 0, t, Seq::empty());
    assert(Seq::<char>::empty() + t =~= t);
}

proof fn lemma_string(s: Seq<char>, p: int, t: Seq<char>, line: usize)
    requires
        0 <= p,
        p + written_text(t).len() < s.len(),
        s.subrange(p, p + written_text(t).len()) == written_text(t),
        s[p + written_text(t).len()] == '"',
    ensures
        string_rest(s, p, '"', line).0 == p + written_text(t).len() + 1,
        string_rest(s, p, '"', line).2 == t,
    decreases t.len(),
{
    if t.len() == 0 {
        assert(t =~= Seq::<char>::empty());
    } else {
        let w = written_text(t);
        let c = written_char(t[0]);
        let rest = t.skip(1);
        assert(s[p] == s.subrange(p, p + w.len())[0]);
        if c.len() == 2 {
            assert(s[p + 1] == s.subrange(p, p + w.len())[1]);
            assert(unescaped(s[p + 1]) == t[0]);
        }
        let q = p + c.len();
        assert(s.subrange(q, q + written_text(rest).len()) =~= written_text(rest)) by {
            assert forall|i: int| 0 <= i < written_text(rest).len() implies s[q + i] == written_text(rest)[i] by {
                assert(s.subrange(p, p + w.len())[c.len() + i] == w[c.len() + i]);
            }
        }
        lemma_string(s, q, rest, crate::lexer::line_after(line, if c.len() == 2 { s[p + 1] } else { s[p] }));
        assert(seq![t[0]] + rest =~= t);
    }
}

/// A string literal of a script has the text that was written in it, and ends behind its
/// closing quotation mark.
pub proof fn law_string_literals(t: Seq<char>, behind: Seq<char>, line: usize)
    ensures
        string_rest(written_text(t).push('"') + behind, 0, '"', line).0 == written_text(t).len() + 1,
        string_rest(written_text(t).push('"') + behind, 0, '"', line).2 == t,
{
    let s = written_text(t).push('"') + behind;
    assert(s.subrange(0, written_text(t).len() as int) =~= written_text(t));
    lemma_string(s, 0, t, line);
}

proof fn lemma_member(s: Seq<MemberTree>, name: Seq<char>, i: int, k: int)
    requires
        0 <= i <= k <= s.len(),
        k < s.len() ==> s[k].name == name,
        forall|j: int| i <= j < k ==> (#[trigger] s[j]).name != name,
    ensures
        member(s, name, i) == (if k < s.len() { s[k].value } else { JsonTree::Null }),
    decreases k - i,
{
    if i < k {
        lemma_member(s, name, i + 1, k);
    }
}

/// A field of an object is its first member of that name, and `null` where there is
/// none.
pub proof fn law_fields(s: Seq<MemberTree>, name: Seq<char>, k: int)
    requires
        0 <= k <= s.len(),
        k < s.len() ==> s[k].name == name,
        forall|j: int| 0 <= j < k ==> (#[trigger] s[j]).name != name,
    ensures
        field(JsonTree::Object(s), name) == (if k < s.len() { s[k].value } else { JsonTree::Null }),
{
    lemma_member(s, name, 0, k);
}

} // verus!
