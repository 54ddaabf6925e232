//! Compact JSON, as the syntax tree of a source text comes in.
//!
//! No white space stands between the parts of the text. Numbers keep their text.
use vstd::prelude::*;
use crate::atoms::same_text;
use crate::scan::stands_at;
use crate::text::{chars_of, owned, string_from};

verus! {

/// A JSON value.
#[allow(inconsistent_fields)]
pub enum Json {
    Null,
    Bool(bool),
    Number(String),
    Str(String),
    List(Vec<Json>),
    Object(Vec<Member>),
}

/// A member of an object.
pub struct Member {
    pub name: String,
    pub value: Json,
}

/// The twin of [`Json`].
#[allow(inconsistent_fields)]
pub enum JsonTree {
    Null,
    Bool(bool),
    Number(Seq<char>),
    Str(Seq<char>),
    List(Seq<JsonTree>),
    Object(Seq<MemberTree>),
}

/// The twin of [`Member`].
pub struct MemberTree {
    pub name: Seq<char>,
    pub value: JsonTree,
}

impl Json {
    /// The twin of this value.
    pub open spec fn tree(self) -> JsonTree
        decreases self,
    {
        match self {
            Json::Null => JsonTree::Null,
            Json::Bool(b) => JsonTree::Bool(b),
            Json::Number(t) => JsonTree::Number(t@),
            Json::Str(t) => JsonTree::Str(t@),
            Json::List(v) => JsonTree::List(json_trees(v)),
            Json::Object(v) => JsonTree::Object(member_trees(v)),
        }
    }
}

impl Member {
    /// The twin of this member.
    pub open spec fn tree(self) -> MemberTree
        decreases self,
    {
        MemberTree { name: self.name@, value: self.value.tree() }
    }
}

/// The twins of a list of values.
pub open spec fn json_trees(v: Vec<Json>) -> Seq<JsonTree>
    decreases v,
{
    Seq::new(v@.len(), |i: int| if 0 <= i < v@.len() { v@[i].tree() } else { arbitrary() })
}

/// The twins of a list of members.
pub open spec fn member_trees(v: Vec<Member>) -> Seq<MemberTree>
    decreases v,
{
    Seq::new(v@.len(), |i: int| if 0 <= i < v@.len() { v@[i].tree() } else { arbitrary() })
}

/// How deep a value is nested; nothing is in `null`.
pub open spec fn height(j: JsonTree) -> nat
    decreases j,
{
    match j {
        JsonTree::Null => 0,
        JsonTree::List(s) => 1 + list_height(s),
        JsonTree::Object(s) => 1 + members_height(s),
        _ => 1,
    }
}

/// The greatest height in a list.
pub open spec fn list_height(s: Seq<JsonTree>) -> nat
    decreases s,
{
    if s.len() == 0 {
        0
    } else {
        let a = list_height(s.subrange(0, s.len() - 1));
        let b = height(s[s.len() - 1]);
        if a > b { a } else { b }
    }
}

/// The greatest height among members.
pub open spec fn members_height(s: Seq<MemberTree>) -> nat
    decreases s,
{
    if s.len() == 0 {
        0
    } else {
        let a = members_height(s.subrange(0, s.len() - 1));
        let b = height(s[s.len() - 1].value);
        if a > b { a } else { b }
    }
}

proof fn lemma_list_height(s: Seq<JsonTree>, i: int)
    requires
        0 <= i < s.len(),
    ensures
        height(s[i]) <= list_height(s),
    decreases s.len(),
{
    let t = s.subrange(0, s.len() - 1);
    if i < s.len() - 1 {
        assert(t[i] == s[i]);
        lemma_list_height(t, i);
    }
}

proof fn lemma_members_height(s: Seq<MemberTree>, i: int)
    requires
        0 <= i < s.len(),
    ensures
        height(s[i].value) <= members_height(s),
    decreases s.len(),
{
    let t = s.subrange(0, s.len() - 1);
    if i < s.len() - 1 {
        assert(t[i] == s[i]);
        lemma_members_height(t, i);
    }
}

/// The value of the first member of a name from a place on, or `null`.
pub open spec fn member(s: Seq<MemberTree>, name: Seq<char>, i: int) -> JsonTree
    decreases s.len() - i,
{
    if i < 0 || i >= s.len() {
        JsonTree::Null
    } else if s[i].name == name {
        s[i].value
    } else {
        member(s, name, i + 1)
    }
}

/// The value of the first member of a name, or `null` where there is none.
pub open spec fn field(j: JsonTree, name: Seq<char>) -> JsonTree {
    match j {
        JsonTree::Object(s) => member(s, name, 0),
        _ => JsonTree::Null,
    }
}

/// How many items a list has.
pub open spec fn count(j: JsonTree) -> nat {
    match j {
        JsonTree::List(s) => s.len(),
        _ => 0,
    }
}

/// An item of a list, or `null` where there is none.
pub open spec fn item(j: JsonTree, i: int) -> JsonTree {
    match j {
        JsonTree::List(s) => if 0 <= i < s.len() { s[i] } else { JsonTree::Null },
        _ => JsonTree::Null,
    }
}

/// The text of a string, and nothing for anything else.
pub open spec fn text_in(j: JsonTree) -> Seq<char> {
    match j {
        JsonTree::Str(t) => t,
        _ => ""@,
    }
}

/// The text of a number, and nothing for anything else.
pub open spec fn number_in(j: JsonTree) -> Seq<char> {
    match j {
        JsonTree::Number(t) => t,
        _ => ""@,
    }
}

/// Whether a value is `true`.
pub open spec fn flag(j: JsonTree) -> bool {
    j == JsonTree::Bool(true)
}

/// Whether a value is an object whose `type` is a text.
pub open spec fn is_kind(j: JsonTree, kind: Seq<char>) -> bool {
    j is Object && field(j, "type"@) == JsonTree::Str(kind)
}

proof fn lemma_member_height(s: Seq<MemberTree>, name: Seq<char>, i: int)
    requires
        0 <= i,
    ensures
        height(member(s, name, i)) <= members_height(s),
    decreases s.len() - i,
{
    if i < s.len() {
        if s[i].name == name {
            lemma_members_height(s, i);
        } else {
            lemma_member_height(s, name, i + 1);
        }
    }
}

/// A member is not nested deeper than its object.
pub broadcast proof fn lemma_field_height(j: JsonTree, name: Seq<char>)
    ensures
        (#[trigger] height(field(j, name))) <= height(j),
        j is Object ==> height(field(j, name)) < height(j),
{
    match j {
        JsonTree::Object(s) => {
            lemma_member_height(s, name, 0);
        },
        _ => {},
    }
}

/// An item is not nested deeper than its list.
pub broadcast proof fn lemma_item_height(j: JsonTree, i: int)
    ensures
        (#[trigger] height(item(j, i))) <= height(j),
        0 <= i < count(j) ==> height(item(j, i)) < height(j),
{
    match j {
        JsonTree::List(s) => {
            if 0 <= i < s.len() {
                lemma_list_height(s, i);
            }
        },
        _ => {},
    }
}

impl Json {
    /// The value of the first member of a name, or `null`.
    pub fn field(&self, name: &str) -> (r: &Json)
        ensures
            r.tree() == field(self.tree(), name@),
    {
        match self {
            Json::Object(v) => {
                let ghost s = member_trees(*v);
                let mut i: usize = 0;
                while i < v.len()
                    invariant
                        i <= v@.len(),
                        s == member_trees(*v),
                        self.tree() == JsonTree::Object(s),
                        member(s, name@, 0) == member(s, name@, i as int),
                    decreases v@.len() - i,
                {
                    assert(s[i as int] == v@[i as int].tree());
                    assert(s[i as int].value == v@[i as int].value.tree());
                    if same_text(v[i].name.as_str(), name) {
                        return &v[i].value;
                    }
                    i += 1;
                }
                &Json::Null
            },
            _ => &Json::Null,
        }
    }

    /// How many items a list has.
    pub fn count(&self) -> (r: usize)
        ensures
            r == count(self.tree()),
    {
        match self {
            Json::List(v) => v.len(),
            _ => 0,
        }
    }

    /// An item of a list, or `null`.
    pub fn item(&self, i: usize) -> (r: &Json)
        ensures
            r.tree() == item(self.tree(), i as int),
    {
        match self {
            Json::List(v) => if i < v.len() {
                assert(json_trees(*v)[i as int] == v@[i as int].tree());
                &v[i]
            } else {
                &Json::Null
            },
            _ => &Json::Null,
        }
    }

    /// The text of a string, and nothing for anything else.
    pub fn text(&self) -> (r: String)
        ensures
            r@ == text_in(self.tree()),
    {
        match self {
            Json::Str(t) => owned(t.as_str()),
            _ => owned(""),
        }
    }

    /// The text of a number, and nothing for anything else.
    pub fn number(&self) -> (r: String)
        ensures
            r@ == number_in(self.tree()),
    {
        match self {
            Json::Number(t) => owned(t.as_str()),
            _ => owned(""),
        }
    }

    /// Whether this is `true`.
    pub fn flag(&self) -> (r: bool)
        ensures
            r == flag(self.tree()),
    {
        match self {
            Json::Bool(b) => *b,
            _ => false,
        }
    }

    /// Whether this is `null`.
    pub fn is_null(&self) -> (r: bool)
        ensures
            r == (self.tree() is Null),
    {
        match self {
            Json::Null => true,
            _ => false,
        }
    }

    /// Whether this is a truth value.
    pub fn is_bool(&self) -> (r: bool)
        ensures
            r == (self.tree() is Bool),
    {
        match self {
            Json::Bool(_) => true,
            _ => false,
        }
    }

    /// Whether this is a number.
    pub fn is_number(&self) -> (r: bool)
        ensures
            r == (self.tree() is Number),
    {
        match self {
            Json::Number(_) => true,
            _ => false,
        }
    }

    /// Whether this is a string.
    pub fn is_string(&self) -> (r: bool)
        ensures
            r == (self.tree() is Str),
    {
        match self {
            Json::Str(_) => true,
            _ => false,
        }
    }

    /// Whether this is a string of a text.
    pub fn is_text(&self, t: &str) -> (r: bool)
        ensures
            r == (self.tree() == JsonTree::Str(t@)),
    {
        match self {
            Json::Str(s) => same_text(s.as_str(), t),
            _ => false,
        }
    }

    /// Whether this is an object whose `type` is a text.
    pub fn is_kind(&self, kind: &str) -> (r: bool)
        ensures
            r == is_kind(self.tree(), kind@),
    {
        match self {
            Json::Object(_) => self.field("type").is_text(kind),
            _ => false,
        }
    }
}

/// How many characters stand at a position and behind it.
pub open spec fn left(s: Seq<char>, p: int) -> nat {
    if p < s.len() { (s.len() - p) as nat } else { 0 }
}

/// The value of a hexadecimal digit.
pub open spec fn hex_digit(c: char) -> Option<u32> {
    if '0' <= c <= '9' {
        Some((c as u32 - '0' as u32) as u32)
    } else if 'a' <= c <= 'f' {
        Some((c as u32 - 'a' as u32 + 10) as u32)
    } else if 'A' <= c <= 'F' {
        Some((c as u32 - 'A' as u32 + 10) as u32)
    } else {
        None
    }
}

/// The value of the four hexadecimal digits at a position.
pub open spec fn hex_at(s: Seq<char>, p: int) -> Option<u32> {
    if p + 4 > s.len() {
        None
    } else {
        match (hex_digit(s[p]), hex_digit(s[p + 1]), hex_digit(s[p + 2]), hex_digit(s[p + 3])) {
            (Some(a), Some(b), Some(c), Some(d)) => Some((4096 * a + 256 * b + 16 * c + d) as u32),
            _ => None,
        }
    }
}

/// The character that a single-letter escape stands for.
pub open spec fn escaped(c: char) -> Option<char> {
    if c == 'n' {
        Some('\n')
    } else if c == 't' {
        Some('\t')
    } else if c == 'r' {
        Some('\r')
    } else if c == 'b' {
        Some('\u{8}')
    } else if c == 'f' {
        Some('\u{c}')
    } else if c == '"' || c == '\\' || c == '/' {
        Some(c)
    } else {
        None
    }
}

/// Whether an escaped surrogate stands in the rest of a string.
pub open spec fn has_surrogate(s: Seq<char>, p: int) -> bool
    decreases left(s, p),
{
    if p < 0 || p >= s.len() || s[p] == '"' {
        false
    } else if s[p] != '\\' {
        has_surrogate(s, p + 1)
    } else if p + 1 >= s.len() {
        false
    } else if s[p + 1] == 'u' {
        match hex_at(s, p + 2) {
            None => false,
            Some(v) => 0xd800 <= v <= 0xdfff || has_surrogate(s, p + 6),
        }
    } else {
        has_surrogate(s, p + 2)
    }
}

/// A character of a string that stands for itself. Where U+FFFD marks surrogates, a
/// U+FFFD of its own is marked too.
pub open spec fn plain(c: char, marks: bool) -> Seq<char> {
    if marks && c == '\u{fffd}' {
        seq!['\u{fffd}', 'f', 'f', 'f', 'd']
    } else {
        seq![c]
    }
}

/// The rest of a string, behind what was read of it, and the position behind its
/// closing quote. An escaped surrogate is kept as U+FFFD with its four digits
/// behind it; of the other escapes with digits only those below 256 are read.
pub open spec fn string_at(s: Seq<char>, p: int, marks: bool, acc: Seq<char>) -> Option<(Seq<char>, int)>
    decreases left(s, p),
{
    if p < 0 || p >= s.len() {
        None
    } else if s[p] == '"' {
        Some((acc, p + 1))
    } else if s[p] != '\\' {
        string_at(s, p + 1, marks, acc + plain(s[p], marks))
    } else if p + 1 >= s.len() {
        None
    } else if s[p + 1] == 'u' {
        match hex_at(s, p + 2) {
            None => None,
            Some(v) => if v < 256 {
                string_at(s, p + 6, marks, acc.push(v as char))
            } else if 0xd800 <= v <= 0xdfff {
                string_at(s, p + 6, marks, acc.push('\u{fffd}') + s.subrange(p + 2, p + 6))
            } else {
                None
            },
        }
    } else {
        match escaped(s[p + 1]) {
            None => None,
            Some(c) => string_at(s, p + 2, marks, acc.push(c)),
        }
    }
}

/// The string that starts at a position, behind its opening quote.
pub open spec fn quoted_at(s: Seq<char>, p: int) -> Option<(Seq<char>, int)> {
    string_at(s, p, has_surrogate(s, p), Seq::empty())
}

/// Whether a character can stand in a number.
pub open spec fn numeral_char(c: char) -> bool {
    ('0' <= c <= '9') || c == '-' || c == '+' || c == '.' || c == 'e' || c == 'E'
}

/// The end of a number.
pub open spec fn numeral_end(s: Seq<char>, p: int) -> int
    decreases left(s, p),
{
    if 0 <= p < s.len() && numeral_char(s[p]) { numeral_end(s, p + 1) } else { p }
}

/// The position `q`, or the one behind `p` where `q` is not behind `p`.
pub open spec fn beyond(p: int, q: int) -> int {
    if q > p { q } else { p + 1 }
}

/// The value at a position, and the position behind it.
pub open spec fn value_at(s: Seq<char>, p: int) -> Option<(JsonTree, int)>
    decreases left(s, p), 0int,
{
    if p < 0 || p >= s.len() {
        None
    } else if s[p] == '"' {
        match quoted_at(s, p + 1) {
            Some((t, q)) => Some((JsonTree::Str(t), q)),
            None => None,
        }
    } else if s[p] == '[' {
        if p + 1 < s.len() && s[p + 1] == ']' {
            Some((JsonTree::List(Seq::empty()), p + 2))
        } else {
            match items_at(s, p + 1, Seq::empty()) {
                Some((v, q)) => Some((JsonTree::List(v), q)),
                None => None,
            }
        }
    } else if s[p] == '{' {
        if p + 1 < s.len() && s[p + 1] == '}' {
            Some((JsonTree::Object(Seq::empty()), p + 2))
        } else {
            match members_at(s, p + 1, Seq::empty()) {
                Some((v, q)) => Some((JsonTree::Object(v), q)),
                None => None,
            }
        }
    } else if stands_at(s, "null"@, p) {
        Some((JsonTree::Null, p + 4))
    } else if stands_at(s, "true"@, p) {
        Some((JsonTree::Bool(true), p + 4))
    } else if stands_at(s, "false"@, p) {
        Some((JsonTree::Bool(false), p + 5))
    } else if numeral_char(s[p]) {
        Some((JsonTree::Number(s.subrange(p, numeral_end(s, p))), numeral_end(s, p)))
    } else {
        None
    }
}

/// The items from a position on, behind those that were read, and the position
/// behind the closing bracket.
pub open spec fn items_at(s: Seq<char>, p: int, acc: Seq<JsonTree>) -> Option<(Seq<JsonTree>, int)>
    decreases left(s, p), 1int,
{
    match value_at(s, p) {
        None => None,
        Some((v, q0)) => {
            let q = beyond(p, q0);
            if q < 0 || q >= s.len() {
                None
            } else if s[q] == ',' {
                items_at(s, q + 1, acc.push(v))
            } else if s[q] == ']' {
                Some((acc.push(v), q + 1))
            } else {
                None
            }
        },
    }
}

/// The members from a position on, behind those that were read, and the position
/// behind the closing brace.
pub open spec fn members_at(s: Seq<char>, p: int, acc: Seq<MemberTree>) -> Option<(Seq<MemberTree>, int)>
    decreases left(s, p), 1int,
{
    if p < 0 || p >= s.len() || s[p] != '"' {
        None
    } else {
        match quoted_at(s, p + 1) {
            None => None,
            Some((name, q0)) => {
                let q = beyond(p, q0);
                if q >= s.len() || s[q] != ':' {
                    None
                } else {
                    match value_at(s, q + 1) {
                        None => None,
                        Some((value, r0)) => {
                            let r = beyond(q, r0);
                            if r >= s.len() {
                                None
                            } else if s[r] == ',' {
                                members_at(s, r + 1, acc.push(MemberTree { name, value }))
                            } else if s[r] == '}' {
                                Some((acc.push(MemberTree { name, value }), r + 1))
                            } else {
                                None
                            }
                        },
                    }
                }
            },
        }
    }
}

/// The value of a whole text.
pub open spec fn json_of(s: Seq<char>) -> Option<JsonTree> {
    match value_at(s, 0) {
        Some((v, q)) => if q == s.len() { Some(v) } else { None },
        None => None,
    }
}

fn hex_value(c: char) -> (r: Option<u32>)
    ensures
        r == hex_digit(c),
        r matches Some(v) ==> v < 16,
{
    if '0' <= c && c <= '9' {
        Some(c as u32 - '0' as u32)
    } else if 'a' <= c && c <= 'f' {
        Some(c as u32 - 'a' as u32 + 10)
    } else if 'A' <= c && c <= 'F' {
        Some(c as u32 - 'A' as u32 + 10)
    } else {
        None
    }
}

fn read_hex(v: &Vec<char>, p: usize) -> (r: Option<u32>)
    requires
        p <= v@.len(),
    ensures
        r == hex_at(v@, p as int),
        r is Some ==> p + 4 <= v@.len(),
{
    if v.len() - p < 4 {
        return None;
    }
    match (hex_value(v[p]), hex_value(v[p + 1]), hex_value(v[p + 2]), hex_value(v[p + 3])) {
        (Some(a), Some(b), Some(c), Some(d)) => Some(4096 * a + 256 * b + 16 * c + d),
        _ => None,
    }
}

fn unescape(c: char) -> (r: Option<char>)
    ensures
        r == escaped(c),
{
    if c == 'n' {
        Some('\n')
    } else if c == 't' {
        Some('\t')
    } else if c == 'r' {
        Some('\r')
    } else if c == 'b' {
        Some('\u{8}')
    } else if c == 'f' {
        Some('\u{c}')
    } else if c == '"' || c == '\\' || c == '/' {
        Some(c)
    } else {
        None
    }
}

fn find_surrogate(v: &Vec<char>, start: usize) -> (r: bool)
    requires
        start <= v@.len(),
    ensures
        r == has_surrogate(v@, start as int),
{
    let mut p: usize = start;
    while p < v.len() && v[p] != '"'
        invariant
            start <= p <= v@.len(),
            has_surrogate(v@, start as int) == has_surrogate(v@, p as int),
        decreases v@.len() - p,
    {
        if v[p] != '\\' {
            p += 1;
        } else if v.len() - p < 2 {
            return false;
        } else if v[p + 1] == 'u' {
            match read_hex(v, p + 2) {
                None => {
                    return false;
                },
                Some(n) => {
                    if 0xd800 <= n && n <= 0xdfff {
                        return true;
                    }
                    p += 6;
                },
            }
        } else {
            p += 2;
        }
    }
    false
}

fn read_string(v: &Vec<char>, start: usize) -> (r: Option<(String, usize)>)
    requires
        start <= v@.len(),
    ensures
        match r {
            Some((t, q)) => quoted_at(v@, start as int) == Some((t@, q as int)) && start < q <= v@.len(),
            None => quoted_at(v@, start as int) is None,
        },
{
    let marks = find_surrogate(v, start);
    let mut out = String::new();
    let mut p: usize = start;
    assert(out@ =~= Seq::<char>::empty());
    loop
        invariant
            start <= p <= v@.len(),
            quoted_at(v@, start as int) == string_at(v@, p as int, marks, out@),
        decreases v@.len() - p,
    {
        if p >= v.len() {
            return None;
        }
        let c = v[p];
        if c == '"' {
            return Some((out, p + 1));
        } else if c != '\\' {
            let ghost before = out@;
            out.push(c);
            if marks && c == '\u{fffd}' {
                out.push('f');
                out.push('f');
                out.push('f');
                out.push('d');
            }
            assert(out@ =~= before + plain(c, marks));
            p += 1;
        } else {
            if v.len() - p < 2 {
                return None;
            }
            if v[p + 1] == 'u' {
                match read_hex(v, p + 2) {
                    None => {
                        return None;
                    },
                    Some(n) => {
                        if n < 256 {
                            out.push((n as u8) as char);
                            p += 6;
                        } else if 0xd800 <= n && n <= 0xdfff {
                            let ghost before = out@;
                            out.push('\u{fffd}');
                            out.push(v[p + 2]);
                            out.push(v[p + 3]);
                            out.push(v[p + 4]);
                            out.push(v[p + 5]);
                            assert(out@ =~= before.push('\u{fffd}') + v@.subrange(p + 2, p + 6));
                            p += 6;
                        } else {
                            return None;
                        }
                    },
                }
            } else {
                match unescape(v[p + 1]) {
                    None => {
                        return None;
                    },
                    Some(d) => {
                        out.push(d);
                        p += 2;
                    },
                }
            }
        }
    }
}

fn word(v: &Vec<char>, lit: &str, p: usize) -> (r: bool)
    requires
        p <= v@.len(),
    ensures
        r == stands_at(v@, lit@, p as int),
{
    let w = chars_of(lit);
    let n = v.len();
    if n - p < w.len() {
        return false;
    }
    let mut i: usize = 0;
    while i < w.len()
        invariant
            w@ == lit@,
            i <= w@.len(),
            n == v@.len(),
            p + w@.len() <= n,
            v@.subrange(p as int, p + i) =~= lit@.subrange(0, i as int),
        decreases w@.len() - i,
    {
        if v[p + i] != w[i] {
            assert(v@.subrange(p as int, p + lit@.len())[i as int] != lit@[i as int]);
            return false;
        }
        assert(v@.subrange(p as int, p + i + 1) =~= v@.subrange(p as int, p + i).push(v@[p + i]));
        assert(lit@.subrange(0, i + 1) =~= lit@.subrange(0, i as int).push(lit@[i as int]));
        i += 1;
    }
    assert(lit@.subrange(0, i as int) =~= lit@);
    true
}

fn read_numeral(v: &Vec<char>, p: usize) -> (r: usize)
    requires
        p < v@.len(),
    ensures
        r == numeral_end(v@, p as int),
        p <= r <= v@.len(),
        numeral_char(v@[p as int]) ==> p < r,
{
    let mut q: usize = p;
    while q < v.len() && (('0' <= v[q] && v[q] <= '9') || v[q] == '-' || v[q] == '+' || v[q] == '.' || v[q] == 'e' || v[q] == 'E')
        invariant
            p <= q <= v@.len(),
            p < v@.len(),
            numeral_end(v@, p as int) == numeral_end(v@, q as int),
        decreases v@.len() - q,
    {
        q += 1;
    }
    q
}

fn read_value(v: &Vec<char>, p: usize) -> (r: Option<(Json, usize)>)
    requires
        p <= v@.len(),
    ensures
        match r {
            Some((j, q)) => value_at(v@, p as int) == Some((j.tree(), q as int)) && p < q <= v@.len(),
            None => value_at(v@, p as int) is None,
        },
    decreases left(v@, p as int), 0int,
{
    proof {
        reveal_strlit("null");
        reveal_strlit("true");
        reveal_strlit("false");
    }
    if p >= v.len() {
        return None;
    }
    let c = v[p];
    if c == '"' {
        match read_string(v, p + 1) {
            Some((t, q)) => Some((Json::Str(t), q)),
            None => None,
        }
    } else if c == '[' {
        if v.len() - p > 1 && v[p + 1] == ']' {
            let none: Vec<Json> = Vec::new();
            assert(json_trees(none) =~= Seq::empty());
            Some((Json::List(none), p + 2))
        } else {
            match read_items(v, p + 1) {
                Some((list, q)) => Some((Json::List(list), q)),
                None => None,
            }
        }
    } else if c == '{' {
        if v.len() - p > 1 && v[p + 1] == '}' {
            let none: Vec<Member> = Vec::new();
            assert(member_trees(none) =~= Seq::empty());
            Some((Json::Object(none), p + 2))
        } else {
            match read_members(v, p + 1) {
                Some((list, q)) => Some((Json::Object(list), q)),
                None => None,
            }
        }
    } else if word(v, "null", p) {
        Some((Json::Null, p + 4))
    } else if word(v, "true", p) {
        Some((Json::Bool(true), p + 4))
    } else if word(v, "false", p) {
        Some((Json::Bool(false), p + 5))
    } else {
        let q = read_numeral(v, p);
        if q > p {
            Some((Json::Number(string_from(v, p, q)), q))
        } else {
            None
        }
    }
}

fn read_items(v: &Vec<char>, start: usize) -> (r: Option<(Vec<Json>, usize)>)
    requires
        start <= v@.len(),
    ensures
        match r {
            Some((list, q)) => items_at(v@, start as int, Seq::empty()) == Some((json_trees(list), q as int)) && start < q <= v@.len(),
            None => items_at(v@, start as int, Seq::empty()) is None,
        },
    decreases left(v@, start as int), 1int,
{
    let mut list: Vec<Json> = Vec::new();
    assert(json_trees(list) =~= Seq::empty());
    let mut p: usize = start;
    loop
        invariant
            start <= p <= v@.len(),
            items_at(v@, start as int, Seq::empty()) == items_at(v@, p as int, json_trees(list)),
        decreases v@.len() - p,
    {
        match read_value(v, p) {
            None => {
                return None;
            },
            Some((j, q)) => {
                let ghost before = json_trees(list);
                let ghost tree = j.tree();
                list.push(j);
                assert(json_trees(list) =~= before.push(tree));
                if q >= v.len() {
                    return None;
                }
                if v[q] == ',' {
                    p = q + 1;
                } else if v[q] == ']' {
                    return Some((list, q + 1));
                } else {
                    return None;
                }
            },
        }
    }
}

fn read_members(v: &Vec<char>, start: usize) -> (r: Option<(Vec<Member>, usize)>)
    requires
        start <= v@.len(),
    ensures
        match r {
            Some((list, q)) => members_at(v@, start as int, Seq::empty()) == Some((member_trees(list), q as int)) && start < q <= v@.len(),
            None => members_at(v@, start as int, Seq::empty()) is None,
        },
    decreases left(v@, start as int), 1int,
{
    let mut list: Vec<Member> = Vec::new();
    assert(member_trees(list) =~= Seq::empty());
    let mut p: usize = start;
    loop
        invariant
            start <= p <= v@.len(),
            members_at(v@, start as int, Seq::empty()) == members_at(v@, p as int, member_trees(list)),
        decreases v@.len() - p,
    {
        if p >= v.len() || v[p] != '"' {
            return None;
        }
        match read_string(v, p + 1) {
            None => {
                return None;
            },
            Some((name, q)) => {
                if q >= v.len() || v[q] != ':' {
                    return None;
                }
                match read_value(v, q + 1) {
                    None => {
                        return None;
                    },
                    Some((value, e)) => {
                        let ghost before = member_trees(list);
                        let m = Member { name, value };
                        let ghost tree = m.tree();
                        list.push(m);
                        assert(member_trees(list) =~= before.push(tree));
                        if e >= v.len() {
                            return None;
                        }
                        if v[e] == ',' {
                            p = e + 1;
                        } else if v[e] == '}' {
                            return Some((list, e + 1));
                        } else {
                            return None;
                        }
                    },
                }
            },
        }
    }
}

/// Reads a whole text.
pub fn read_json(text: &str) -> (r: Option<Json>)
    ensures
        match r {
            Some(j) => json_of(text@) == Some(j.tree()),
            None => json_of(text@) is None,
        },
{
    let v = chars_of(text);
    match read_value(&v, 0) {
        Some((j, q)) => if q == v.len() { Some(j) } else { None },
        None => None,
    }
}

} // verus!
