//! The hand-written lexer.
use vstd::prelude::*;
use crate::atoms::same_text;
use crate::error::{Error, ErrorView};
use crate::nth::next;
use crate::scan::{is_white, white};
use crate::text::{chars_of, joined, string_from};

verus! {

/// A keyword.
#[derive(Clone, Copy, PartialEq, Eq, Structural, Debug)]
pub enum Kw {
    Var,
    This,
    True,
    False,
    Undefined,
    Null,
    If,
    Else,
    In,
    Function,
    Return,
    For,
    Break,
    Continue,
    Switch,
    Case,
    Default,
    Try,
    Catch,
    Finally,
    Throw,
    New,
    Instanceof,
    Typeof,
    Void,
    While,
    Do,
    Class,
    Super,
    Delete,
}

/// The kind of a token.
#[derive(Clone, Copy, PartialEq, Eq, Structural, Debug)]
pub enum TokenKind {
    Ident,
    Number,
    Str,
    Kw(Kw),
    Punct,
    /// The end of the source.
    Eof,
}

/// A token, with the line on which it starts. The text of a string is its value.
#[derive(Debug)]
pub struct Token {
    pub kind: TokenKind,
    pub text: String,
    pub line: usize,
}

/// The contents of a [`Token`].
#[verifier::ext_equal]
pub struct TokenView {
    pub kind: TokenKind,
    pub text: Seq<char>,
    pub line: usize,
}

impl Token {
    /// The contents.
    pub open spec fn view(&self) -> TokenView {
        TokenView { kind: self.kind, text: self.text@, line: self.line }
    }
}

/// The contents of tokens.
pub open spec fn token_views(v: Seq<Token>) -> Seq<TokenView> {
    v.map_values(|t: Token| t@)
}

/// What the standard library says of a character's being alphabetic.
pub uninterp spec fn alphabetic(c: char) -> bool;

/// What the standard library says of a character's being numeric.
pub uninterp spec fn numeric(c: char) -> bool;

/// Calls `char::is_alphabetic`: whether the character has the Unicode property
/// Alphabetic, which depends on the character alone.
#[verifier::external_body]
fn std_alphabetic(c: char) -> (r: bool)
    ensures
        r == alphabetic(c),
{
    c.is_alphabetic()
}

/// Calls `char::is_numeric`: whether the character is in one of the Unicode
/// categories of numbers, which depends on the character alone.
#[verifier::external_body]
fn std_numeric(c: char) -> (r: bool)
    ensures
        r == numeric(c),
{
    c.is_numeric()
}

/// Whether a character is an ASCII digit.
#[verifier::allow_in_spec]
pub fn is_digit(c: char) -> (r: bool)
    returns
        '0' <= c <= '9',
{
    '0' <= c && c <= '9'
}

/// Whether a character is an ASCII letter.
#[verifier::allow_in_spec]
pub fn is_ascii_letter(c: char) -> (r: bool)
    returns
        ('a' <= c <= 'z') || ('A' <= c <= 'Z'),
{
    ('a' <= c && c <= 'z') || ('A' <= c && c <= 'Z')
}

/// Whether a character can start a word: a letter, `_` or `$`.
pub open spec fn word_start(c: char) -> bool {
    c == '_' || c == '$' || is_ascii_letter(c) || (c as u32 > 127 && alphabetic(c))
}

/// Whether a character can stand in a word: a letter, a number, `_` or `$`.
pub open spec fn word_char(c: char) -> bool {
    word_start(c) || is_digit(c) || (c as u32 > 127 && numeric(c))
}

/// Whether a character can stand in a number.
#[verifier::allow_in_spec]
pub fn number_char(c: char) -> (r: bool)
    returns
        is_digit(c) || is_ascii_letter(c) || c == '.' || c == '_',
{
    is_digit(c) || is_ascii_letter(c) || c == '.' || c == '_'
}

fn starts_word(c: char) -> (r: bool)
    ensures
        r == word_start(c),
{
    c == '_' || c == '$' || is_ascii_letter(c) || (c as u32 > 127 && std_alphabetic(c))
}

fn in_word(c: char) -> (r: bool)
    ensures
        r == word_char(c),
{
    starts_word(c) || is_digit(c) || (c as u32 > 127 && std_numeric(c))
}

/// The character at a position.
pub open spec fn char_at(s: Seq<char>, i: int) -> Option<char> {
    if 0 <= i < s.len() { Some(s[i]) } else { None }
}

/// The line after a character.
#[verifier::allow_in_spec]
pub fn line_after(line: usize, c: char) -> (r: usize)
    returns
        (if c == '\n' { next(line) } else { line }),
{
    if c == '\n' { next(line) } else { line }
}

/// The end of the line at a position.
pub open spec fn line_end(s: Seq<char>, i: int) -> int
    decreases s.len() - i,
{
    if i < s.len() && s[i] != '\n' { line_end(s, i + 1) } else { i }
}

/// The end of a block comment from a position inside it, and the line there. A
/// comment that nothing closes reaches to the end.
pub open spec fn comment_end(s: Seq<char>, i: int, line: usize) -> (int, usize)
    decreases s.len() - i,
{
    if i < 0 || i >= s.len() {
        (i, line)
    } else if s[i] == '*' && char_at(s, i + 1) == Some('/') {
        (i + 2, line)
    } else {
        comment_end(s, i + 1, line_after(line, s[i]))
    }
}

pub proof fn lemma_line_end(s: Seq<char>, i: int)
    requires
        i <= s.len(),
    ensures
        i <= line_end(s, i) <= s.len(),
    decreases s.len() - i,
{
    if i < s.len() && s[i] != '\n' {
        lemma_line_end(s, i + 1);
    }
}

pub proof fn lemma_comment_end(s: Seq<char>, i: int, line: usize)
    requires
        0 <= i <= s.len(),
    ensures
        i <= comment_end(s, i, line).0 <= s.len(),
    decreases s.len() - i,
{
    if i < s.len() {
        if s[i] == '*' && char_at(s, i + 1) == Some('/') {
        } else {
            lemma_comment_end(s, i + 1, line_after(line, s[i]));
        }
    }
}

/// The position behind white space and comments, and the line there.
pub open spec fn past_trivia(s: Seq<char>, i: int, line: usize) -> (int, usize)
    decreases s.len() - i,
{
    if i < 0 || i >= s.len() {
        (i, line)
    } else if white(s[i]) {
        past_trivia(s, i + 1, line_after(line, s[i]))
    } else if s[i] == '/' && char_at(s, i + 1) == Some('/') {
        proof {
            lemma_line_end(s, i + 1);
        }
        past_trivia(s, line_end(s, i), line)
    } else if s[i] == '/' && char_at(s, i + 1) == Some('*') {
        proof {
            lemma_comment_end(s, i + 2, line);
        }
        let (j, l) = comment_end(s, i + 2, line);
        past_trivia(s, j, l)
    } else {
        (i, line)
    }
}

/// The end of a number.
pub open spec fn number_end(s: Seq<char>, i: int) -> int
    decreases s.len() - i,
{
    if 0 <= i < s.len() && number_char(s[i]) { number_end(s, i + 1) } else { i }
}

/// The end of a word.
pub open spec fn word_end(s: Seq<char>, i: int) -> int
    decreases s.len() - i,
{
    if 0 <= i < s.len() && word_char(s[i]) { word_end(s, i + 1) } else { i }
}

/// The character that an escape stands for.
#[verifier::allow_in_spec]
pub fn unescaped(c: char) -> (r: char)
    returns
        (if c == 'n' {
            '\n'
        } else if c == 't' {
            '\t'
        } else if c == 'r' {
            '\r'
        } else if c == '0' {
            '\0'
        } else {
            c
        }),
{
    if c == 'n' {
        '\n'
    } else if c == 't' {
        '\t'
    } else if c == 'r' {
        '\r'
    } else if c == '0' {
        '\0'
    } else {
        c
    }
}

/// The rest of a string: its end, the line there, and its value. A string that
/// nothing closes reaches to the end; a last backslash stands for a zero character.
pub open spec fn string_rest(s: Seq<char>, i: int, quote: char, line: usize) -> (int, usize, Seq<char>)
    decreases s.len() - i,
{
    if i < 0 || i >= s.len() {
        (i, line, Seq::empty())
    } else if s[i] == quote {
        (i + 1, line, Seq::empty())
    } else if s[i] == '\\' {
        if i + 1 < s.len() {
            let (j, l, t) = string_rest(s, i + 2, quote, line_after(line, s[i + 1]));
            (j, l, seq![unescaped(s[i + 1])] + t)
        } else {
            (i + 2, line, seq!['\0'])
        }
    } else {
        let (j, l, t) = string_rest(s, i + 1, quote, line_after(line, s[i]));
        (j, l, seq![s[i]] + t)
    }
}

/// The keyword that a word is.
pub open spec fn keyword(t: Seq<char>) -> Option<Kw> {
    if t == "var"@ {
        Some(Kw::Var)
    } else if t == "this"@ {
        Some(Kw::This)
    } else if t == "true"@ {
        Some(Kw::True)
    } else if t == "false"@ {
        Some(Kw::False)
    } else if t == "undefined"@ {
        Some(Kw::Undefined)
    } else if t == "null"@ {
        Some(Kw::Null)
    } else if t == "if"@ {
        Some(Kw::If)
    } else if t == "else"@ {
        Some(Kw::Else)
    } else if t == "in"@ {
        Some(Kw::In)
    } else if t == "function"@ {
        Some(Kw::Function)
    } else if t == "return"@ {
        Some(Kw::Return)
    } else if t == "for"@ {
        Some(Kw::For)
    } else if t == "break"@ {
        Some(Kw::Break)
    } else if t == "continue"@ {
        Some(Kw::Continue)
    } else if t == "switch"@ {
        Some(Kw::Switch)
    } else if t == "case"@ {
        Some(Kw::Case)
    } else if t == "default"@ {
        Some(Kw::Default)
    } else if t == "try"@ {
        Some(Kw::Try)
    } else if t == "catch"@ {
        Some(Kw::Catch)
    } else if t == "finally"@ {
        Some(Kw::Finally)
    } else if t == "throw"@ {
        Some(Kw::Throw)
    } else if t == "new"@ {
        Some(Kw::New)
    } else if t == "instanceof"@ {
        Some(Kw::Instanceof)
    } else if t == "typeof"@ {
        Some(Kw::Typeof)
    } else if t == "void"@ {
        Some(Kw::Void)
    } else if t == "while"@ {
        Some(Kw::While)
    } else if t == "do"@ {
        Some(Kw::Do)
    } else if t == "class"@ {
        Some(Kw::Class)
    } else if t == "super"@ {
        Some(Kw::Super)
    } else if t == "delete"@ {
        Some(Kw::Delete)
    } else {
        None
    }
}

fn find_keyword(t: &str) -> (r: Option<Kw>)
    ensures
        r == keyword(t@),
{
    if same_text(t, "var") {
        Some(Kw::Var)
    } else if same_text(t, "this") {
        Some(Kw::This)
    } else if same_text(t, "true") {
        Some(Kw::True)
    } else if same_text(t, "false") {
        Some(Kw::False)
    } else if same_text(t, "undefined") {
        Some(Kw::Undefined)
    } else if same_text(t, "null") {
        Some(Kw::Null)
    } else if same_text(t, "if") {
        Some(Kw::If)
    } else if same_text(t, "else") {
        Some(Kw::Else)
    } else if same_text(t, "in") {
        Some(Kw::In)
    } else if same_text(t, "function") {
        Some(Kw::Function)
    } else if same_text(t, "return") {
        Some(Kw::Return)
    } else if same_text(t, "for") {
        Some(Kw::For)
    } else if same_text(t, "break") {
        Some(Kw::Break)
    } else if same_text(t, "continue") {
        Some(Kw::Continue)
    } else if same_text(t, "switch") {
        Some(Kw::Switch)
    } else if same_text(t, "case") {
        Some(Kw::Case)
    } else if same_text(t, "default") {
        Some(Kw::Default)
    } else if same_text(t, "try") {
        Some(Kw::Try)
    } else if same_text(t, "catch") {
        Some(Kw::Catch)
    } else if same_text(t, "finally") {
        Some(Kw::Finally)
    } else if same_text(t, "throw") {
        Some(Kw::Throw)
    } else if same_text(t, "new") {
        Some(Kw::New)
    } else if same_text(t, "instanceof") {
        Some(Kw::Instanceof)
    } else if same_text(t, "typeof") {
        Some(Kw::Typeof)
    } else if same_text(t, "void") {
        Some(Kw::Void)
    } else if same_text(t, "while") {
        Some(Kw::While)
    } else if same_text(t, "do") {
        Some(Kw::Do)
    } else if same_text(t, "class") {
        Some(Kw::Class)
    } else if same_text(t, "super") {
        Some(Kw::Super)
    } else if same_text(t, "delete") {
        Some(Kw::Delete)
    } else {
        None
    }
}

/// Whether three characters are an operator.
#[verifier::allow_in_spec]
pub fn three_chars(a: char, b: char, c: char) -> (r: bool)
    returns
        (a == '=' || a == '!') && b == '=' && c == '=',
{
    (a == '=' || a == '!') && b == '=' && c == '='
}

/// Whether two characters are an operator.
#[verifier::allow_in_spec]
pub fn two_chars(a: char, b: char) -> (r: bool)
    returns
        (b == '=' && (a == '=' || a == '!' || a == '<' || a == '>' || a == '+' || a == '-' || a == '*' || a == '/' || a == '%'))
            || (a == b && (a == '&' || a == '|' || a == '+' || a == '-')),
{
    (b == '=' && (a == '=' || a == '!' || a == '<' || a == '>' || a == '+' || a == '-' || a == '*' || a == '/' || a == '%'))
        || (a == b && (a == '&' || a == '|' || a == '+' || a == '-'))
}

/// Whether a character is a punctuator.
#[verifier::allow_in_spec]
pub fn one_char(c: char) -> (r: bool)
    returns
        c == '.' || c == '(' || c == ')' || c == '{' || c == '}' || c == '[' || c == ']' || c == ',' || c == ';' || c == ':' || c == '?'
            || c == '=' || c == '+' || c == '-' || c == '*' || c == '/' || c == '%' || c == '!' || c == '<' || c == '>',
{
    c == '.' || c == '(' || c == ')' || c == '{' || c == '}' || c == '[' || c == ']' || c == ',' || c == ';' || c == ':' || c == '?'
        || c == '=' || c == '+' || c == '-' || c == '*' || c == '/' || c == '%' || c == '!' || c == '<' || c == '>'
}

/// How many characters the punctuator at a position has: the longest one counts.
pub open spec fn punct_len(s: Seq<char>, i: int) -> int {
    if i + 2 < s.len() && three_chars(s[i], s[i + 1], s[i + 2]) {
        3
    } else if i + 1 < s.len() && two_chars(s[i], s[i + 1]) {
        2
    } else if one_char(s[i]) {
        1
    } else {
        0
    }
}

/// The token at a position, with its end and the line there; a message where none
/// starts with the character.
pub open spec fn token_at(s: Seq<char>, i: int, line: usize) -> Result<(TokenView, int, usize), Seq<char>> {
    let c = s[i];
    if is_digit(c) || (c == '.' && i + 1 < s.len() && is_digit(s[i + 1])) {
        let j = number_end(s, i);
        Ok((TokenView { kind: TokenKind::Number, text: s.subrange(i, j), line }, j, line))
    } else if c == '"' || c == '\'' {
        let (j, l, t) = string_rest(s, i + 1, c, line);
        Ok((TokenView { kind: TokenKind::Str, text: t, line }, j, l))
    } else if word_start(c) {
        let j = word_end(s, i);
        Ok((TokenView { kind: word_kind(s.subrange(i, j)), text: s.subrange(i, j), line }, j, line))
    } else if punct_len(s, i) > 0 {
        let j = i + punct_len(s, i);
        Ok((TokenView { kind: TokenKind::Punct, text: s.subrange(i, j), line }, j, line))
    } else {
        Err("unexpected character '"@ + seq![c] + "'"@)
    }
}

/// The kind of a word.
pub open spec fn word_kind(t: Seq<char>) -> TokenKind {
    match keyword(t) {
        Some(k) => TokenKind::Kw(k),
        None => TokenKind::Ident,
    }
}

proof fn lemma_number_end(s: Seq<char>, i: int)
    requires
        0 <= i <= s.len(),
    ensures
        i <= number_end(s, i) <= s.len(),
        i < s.len() && number_char(s[i]) ==> i < number_end(s, i),
    decreases s.len() - i,
{
    if i < s.len() && number_char(s[i]) {
        lemma_number_end(s, i + 1);
    }
}

proof fn lemma_word_end(s: Seq<char>, i: int)
    requires
        0 <= i <= s.len(),
    ensures
        i <= word_end(s, i) <= s.len(),
        i < s.len() && word_char(s[i]) ==> i < word_end(s, i),
    decreases s.len() - i,
{
    if i < s.len() && word_char(s[i]) {
        lemma_word_end(s, i + 1);
    }
}

proof fn lemma_string_rest(s: Seq<char>, i: int, quote: char, line: usize)
    requires
        0 <= i <= s.len(),
    ensures
        i <= string_rest(s, i, quote, line).0 <= s.len() + 1,
        line <= string_rest(s, i, quote, line).1,
    decreases s.len() - i,
{
    if i < s.len() && s[i] != quote {
        if s[i] == '\\' {
            if i + 1 < s.len() {
                lemma_string_rest(s, i + 2, quote, line_after(line, s[i + 1]));
            }
        } else {
            lemma_string_rest(s, i + 1, quote, line_after(line, s[i]));
        }
    }
}

pub proof fn lemma_past_trivia(s: Seq<char>, i: int, line: usize)
    requires
        0 <= i,
    ensures
        i <= past_trivia(s, i, line).0,
        i <= s.len() ==> past_trivia(s, i, line).0 <= s.len(),
        line <= past_trivia(s, i, line).1,
    decreases s.len() - i,
{
    if i < s.len() {
        if white(s[i]) {
            lemma_past_trivia(s, i + 1, line_after(line, s[i]));
        } else if s[i] == '/' && char_at(s, i + 1) == Some('/') {
            lemma_line_end(s, i + 1);
            lemma_past_trivia(s, line_end(s, i), line);
        } else if s[i] == '/' && char_at(s, i + 1) == Some('*') {
            lemma_comment_end(s, i + 2, line);
            lemma_comment_lines(s, i + 2, line);
            let (j, l) = comment_end(s, i + 2, line);
            lemma_past_trivia(s, j, l);
        }
    }
}

proof fn lemma_comment_lines(s: Seq<char>, i: int, line: usize)
    requires
        0 <= i,
    ensures
        line <= comment_end(s, i, line).1,
    decreases s.len() - i,
{
    if i < s.len() {
        if s[i] == '*' && char_at(s, i + 1) == Some('/') {
        } else {
            lemma_comment_lines(s, i + 1, line_after(line, s[i]));
        }
    }
}

/// A token reaches beyond the position at which it starts, and its line is not
/// after the line at its end.
pub proof fn lemma_token_at(s: Seq<char>, i: int, line: usize)
    requires
        0 <= i < s.len(),
    ensures
        match token_at(s, i, line) {
            Ok((t, j, l)) => i < j <= s.len() + 1 && t.line == line && line <= l && !(t.kind is Eof),
            Err(_) => true,
        },
{
    lemma_number_end(s, i);
    lemma_word_end(s, i);
    lemma_string_rest(s, i + 1, s[i], line);
}

/// What lexing from a position gives: the position and line where it stopped, and
/// the tokens or the message of what it stopped at. The tokens end with that of the
/// end of the source.
pub open spec fn lexed(s: Seq<char>, i: int, line: usize) -> (int, usize, Result<Seq<TokenView>, Seq<char>>)
    decreases s.len() + 1 - i,
{
    let (p, l) = past_trivia(s, i, line);
    if i < 0 || p >= s.len() {
        (p, l, Ok(seq![TokenView { kind: TokenKind::Eof, text: ""@, line: l }]))
    } else {
        proof {
            lemma_past_trivia(s, i, line);
            lemma_token_at(s, p, l);
        }
        match token_at(s, p, l) {
            Err(m) => (p + 1, line_after(l, s[p]), Err(m)),
            Ok((t, j, m)) => {
                let (e, k, rest) = lexed(s, j, m);
                (e, k, match rest {
                    Ok(ts) => Ok(seq![t] + ts),
                    Err(x) => Err(x),
                })
            },
        }
    }
}

/// The hand-written lexer over a source text.
pub struct Lexer {
    chars: Vec<char>,
    pos: usize,
    line: usize,
}

impl Lexer {
    /// The source text.
    pub closed spec fn source(&self) -> Seq<char> {
        self.chars@
    }

    /// The position of the next character.
    pub closed spec fn position(&self) -> int {
        self.pos as int
    }

    /// The line of the next character.
    pub closed spec fn line_number(&self) -> usize {
        self.line
    }

    /// A lexer at the start of a source text.
    pub fn new(src: &str) -> (r: Self)
        ensures
            r.source() == src@,
            r.position() == 0,
            r.line_number() == 1,
    {
        Lexer { chars: chars_of(src), pos: 0, line: 1 }
    }

    fn peek(&self) -> (r: Option<char>)
        ensures
            r == char_at(self.chars@, self.pos as int),
    {
        if self.pos < self.chars.len() { Some(self.chars[self.pos]) } else { None }
    }

    fn peek2(&self) -> (r: Option<char>)
        ensures
            r == char_at(self.chars@, self.pos + 1),
    {
        if self.pos < self.chars.len() && self.chars.len() - self.pos > 1 { Some(self.chars[self.pos + 1]) } else { None }
    }

    fn peek3(&self) -> (r: Option<char>)
        ensures
            r == char_at(self.chars@, self.pos + 2),
    {
        if self.pos < self.chars.len() && self.chars.len() - self.pos > 2 { Some(self.chars[self.pos + 2]) } else { None }
    }

    fn advance(&mut self) -> (r: Option<char>)
        requires
            old(self).pos < old(self).chars@.len(),
        ensures
            r == char_at(old(self).chars@, old(self).pos as int),
            final(self).chars@ == old(self).chars@,
            final(self).pos == old(self).pos + 1,
            final(self).line == line_after(old(self).line, old(self).chars@[old(self).pos as int]),
    {
        let c = self.chars[self.pos];
        assert(self.chars@.len() == self.chars.len());
        self.line = line_after(self.line, c);
        self.pos += 1;
        Some(c)
    }

    fn skip_trivia(&mut self)
        ensures
            final(self).chars@ == old(self).chars@,
            (final(self).pos as int, final(self).line) == past_trivia(old(self).chars@, old(self).pos as int, old(self).line),
    {
        let ghost s = self.chars@;
        let ghost want = past_trivia(s, self.pos as int, self.line);
        loop
            invariant
                self.chars@ == s,
                want == past_trivia(s, self.pos as int, self.line),
            ensures
                (self.pos as int, self.line) == want,
            decreases (if self.pos < s.len() { s.len() - self.pos } else { 0 }),
        {
            match self.peek() {
                None => {
                    break;
                },
                Some(c) => {
                    let ghost start = self.pos as int;
                    if is_white(c) {
                        let _ = self.advance();
                    } else if c == '/' && self.peek2() == Some('/') {
                        let ghost end = line_end(s, start);
                        let ghost line = self.line;
                        proof {
                            lemma_line_end(s, start + 1);
                        }
                        while self.pos < self.chars.len() && self.chars[self.pos] != '\n'
                            invariant
                                self.chars@ == s,
                                self.line == line,
                                start <= self.pos,
                                self.pos <= s.len(),
                                end == line_end(s, self.pos as int),
                            decreases s.len() - self.pos,
                        {
                            let _ = self.advance();
                        }
                    } else if c == '/' && self.peek2() == Some('*') {
                        let ghost line = self.line;
                        let _ = self.advance();
                        let _ = self.advance();
                        let ghost end = comment_end(s, start + 2, line);
                        proof {
                            lemma_comment_end(s, start + 2, line);
                        }
                        let mut open = true;
                        while open && self.pos < self.chars.len()
                            invariant
                                self.chars@ == s,
                                start + 2 <= self.pos,
                                self.pos <= s.len(),
                                open ==> end == comment_end(s, self.pos as int, self.line),
                                !open ==> end == (self.pos as int, self.line),
                            decreases s.len() - self.pos,
                        {
                            if self.chars[self.pos] == '*' && self.peek2() == Some('/') {
                                let _ = self.advance();
                                let _ = self.advance();
                                open = false;
                            } else {
                                let _ = self.advance();
                            }
                        }
                    } else {
                        break;
                    }
                },
            }
        }
    }

    fn next_token(&mut self) -> (r: Result<Token, Error>)
        requires
            old(self).pos < old(self).chars@.len(),
            old(self).chars@.len() < usize::MAX,
        ensures
            final(self).chars@ == old(self).chars@,
            match r {
                Ok(t) => token_at(old(self).chars@, old(self).pos as int, old(self).line) == Ok::<_, Seq<char>>((t@, final(self).pos as int, final(self).line)),
                Err(e) => exists|m: Seq<char>|
                    token_at(old(self).chars@, old(self).pos as int, old(self).line) == Err::<(TokenView, int, usize), _>(m) && e@ == ErrorView::Parse(m)
                        && final(self).pos == old(self).pos + 1 && final(self).line == line_after(old(self).line, old(self).chars@[old(self).pos as int]),
            },
    {
        let c = self.chars[self.pos];
        let digit_next = match self.peek2() {
            Some(d) => is_digit(d),
            None => false,
        };
        if is_digit(c) || (c == '.' && digit_next) {
            Ok(self.number())
        } else if c == '"' || c == '\'' {
            Ok(self.string(c))
        } else if starts_word(c) {
            Ok(self.ident())
        } else {
            self.punct()
        }
    }

    fn number(&mut self) -> (t: Token)
        requires
            old(self).pos < old(self).chars@.len(),
        ensures
            final(self).chars@ == old(self).chars@,
            final(self).line == old(self).line,
            final(self).pos == number_end(old(self).chars@, old(self).pos as int),
            t.kind == TokenKind::Number,
            t.text@ == old(self).chars@.subrange(old(self).pos as int, final(self).pos as int),
            t.line == old(self).line,
    {
        let start = self.pos;
        let line = self.line;
        let ghost s = self.chars@;
        proof {
            lemma_number_end(s, start as int);
        }
        while self.pos < self.chars.len() && number_char(self.chars[self.pos])
            invariant
                self.chars@ == s,
                self.line == line,
                start <= self.pos,
                self.pos <= s.len(),
                number_end(s, start as int) == number_end(s, self.pos as int),
            decreases s.len() - self.pos,
        {
            let _ = self.advance();
        }
        Token { kind: TokenKind::Number, text: string_from(&self.chars, start, self.pos), line }
    }

    fn string(&mut self, quote: char) -> (t: Token)
        requires
            old(self).pos < old(self).chars@.len(),
            old(self).chars@.len() < usize::MAX,
            quote == old(self).chars@[old(self).pos as int],
            quote == '"' || quote == '\'',
        ensures
            final(self).chars@ == old(self).chars@,
            (final(self).pos as int, final(self).line, t.text@) == string_rest(old(self).chars@, old(self).pos + 1, quote, old(self).line),
            t.kind == TokenKind::Str,
            t.line == old(self).line,
    {
        let line = self.line;
        let ghost s = self.chars@;
        let ghost first = self.pos + 1;
        let _ = self.advance();
        let mut out = String::new();
        let ghost want = string_rest(s, first, quote, line);
        assert(out@ + string_rest(s, first, quote, line).2 =~= want.2);
        loop
            invariant_except_break
                self.chars@ == s,
                s.len() < usize::MAX,
                self.pos <= s.len(),
                quote == '"' || quote == '\'',
                want.0 == string_rest(s, self.pos as int, quote, self.line).0,
                want.1 == string_rest(s, self.pos as int, quote, self.line).1,
                want.2 == out@ + string_rest(s, self.pos as int, quote, self.line).2,
            ensures
                self.chars@ == s,
                (self.pos as int, self.line, out@) == want,
            decreases s.len() - self.pos,
        {
            let ghost before = out@;
            let ghost at = self.pos as int;
            match self.peek() {
                None => {
                    assert(out@ + Seq::<char>::empty() =~= out@);
                    break;
                },
                Some(c) => {
                    if c == quote {
                        let _ = self.advance();
                        assert(out@ + Seq::<char>::empty() =~= out@);
                        break;
                    } else if c == '\\' {
                        let _ = self.advance();
                        match self.peek() {
                            Some(e) => {
                                let _ = self.advance();
                                out.push(unescaped(e));
                                assert(out@ + string_rest(s, at + 2, quote, self.line).2 =~= before + (seq![unescaped(e)] + string_rest(s, at + 2, quote, self.line).2));
                            },
                            None => {
                                self.pos += 1;
                                out.push('\0');
                                assert(out@ =~= before + seq!['\0']);
                                break;
                            },
                        }
                    } else {
                        let _ = self.advance();
                        out.push(c);
                        assert(out@ + string_rest(s, at + 1, quote, self.line).2 =~= before + (seq![c] + string_rest(s, at + 1, quote, self.line).2));
                    }
                },
            }
        }
        Token { kind: TokenKind::Str, text: out, line }
    }

    fn ident(&mut self) -> (t: Token)
        requires
            old(self).pos < old(self).chars@.len(),
        ensures
            final(self).chars@ == old(self).chars@,
            final(self).line == old(self).line,
            final(self).pos == word_end(old(self).chars@, old(self).pos as int),
            t.text@ == old(self).chars@.subrange(old(self).pos as int, final(self).pos as int),
            t.kind == word_kind(t.text@),
            t.line == old(self).line,
    {
        let start = self.pos;
        let line = self.line;
        let ghost s = self.chars@;
        proof {
            lemma_word_end(s, start as int);
        }
        loop
            invariant
                self.chars@ == s,
                self.line == line,
                start <= self.pos,
                self.pos <= s.len(),
                word_end(s, start as int) == word_end(s, self.pos as int),
            ensures
                self.chars@ == s,
                self.line == line,
                start <= self.pos,
                self.pos <= s.len(),
                self.pos == word_end(s, start as int),
            decreases s.len() - self.pos,
        {
            match self.peek() {
                Some(c) => {
                    if in_word(c) {
                        let _ = self.advance();
                    } else {
                        break;
                    }
                },
                None => {
                    break;
                },
            }
        }
        let text = string_from(&self.chars, start, self.pos);
        let kind = match find_keyword(text.as_str()) {
            Some(k) => TokenKind::Kw(k),
            None => TokenKind::Ident,
        };
        Token { kind, text, line }
    }

    fn punct(&mut self) -> (r: Result<Token, Error>)
        requires
            old(self).pos < old(self).chars@.len(),
        ensures
            final(self).chars@ == old(self).chars@,
            match r {
                Ok(t) => punct_len(old(self).chars@, old(self).pos as int) > 0 && final(self).pos == old(self).pos + punct_len(old(self).chars@, old(self).pos as int)
                    && final(self).line == old(self).line && t@ == (TokenView {
                    kind: TokenKind::Punct,
                    text: old(self).chars@.subrange(old(self).pos as int, final(self).pos as int),
                    line: old(self).line,
                }),
                Err(e) => punct_len(old(self).chars@, old(self).pos as int) == 0 && final(self).pos == old(self).pos + 1 && final(self).line == line_after(
                    old(self).line,
                    old(self).chars@[old(self).pos as int],
                ) && e@ == ErrorView::Parse("unexpected character '"@ + seq![old(self).chars@[old(self).pos as int]] + "'"@),
            },
    {
        let start = self.pos;
        let line = self.line;
        let c = self.chars[self.pos];
        let three = match (self.peek2(), self.peek3()) {
            (Some(d), Some(e)) => three_chars(c, d, e),
            _ => false,
        };
        let two = match self.peek2() {
            Some(d) => two_chars(c, d),
            None => false,
        };
        if three {
            let _ = self.advance();
            let _ = self.advance();
            let _ = self.advance();
        } else if two {
            let _ = self.advance();
            let _ = self.advance();
        } else {
            let _ = self.advance();
            if !one_char(c) {
                let mut t = String::new();
                t.push(c);
                assert(t@ =~= seq![c]);
                let a = joined("unexpected character '", t.as_str());
                return Err(Error::Parse(joined(a.as_str(), "'")));
            }
        }
        Ok(Token { kind: TokenKind::Punct, text: string_from(&self.chars, start, self.pos), line })
    }

    /// Lexes the rest of the source text.
    pub fn tokenize(&mut self) -> (r: Result<Vec<Token>, Error>)
        requires
            old(self).source().len() < usize::MAX,
        ensures
            final(self).source() == old(self).source(),
            ({
                let (p, l, t) = lexed(old(self).source(), old(self).position(), old(self).line_number());
                &&& final(self).position() == p
                &&& final(self).line_number() == l
                &&& match r {
                    Ok(ts) => t == Ok::<_, Seq<char>>(token_views(ts@)),
                    Err(e) => exists|m: Seq<char>| t == Err::<Seq<TokenView>, _>(m) && e@ == ErrorView::Parse(m),
                }
            }),
    {
        let mut tokens: Vec<Token> = Vec::new();
        let ghost s = self.chars@;
        let ghost want = lexed(s, self.pos as int, self.line);
        assert(token_views(tokens@) =~= Seq::<TokenView>::empty());
        assert(want == after_tokens(token_views(tokens@), want)) by {
            match want.2 {
                Ok(ts) => {
                    assert(Seq::<TokenView>::empty() + ts =~= ts);
                },
                Err(_) => {},
            }
        }
        loop
            invariant
                self.chars@ == s,
                s.len() < usize::MAX,
                s == old(self).chars@,
                want == lexed(s, old(self).pos as int, old(self).line),
                want == after_tokens(token_views(tokens@), lexed(s, self.pos as int, self.line)),
            decreases (if self.pos < s.len() { s.len() - self.pos } else { 0 }),
        {
            let ghost at = self.pos as int;
            let ghost at_line = self.line;
            proof {
                lemma_past_trivia(s, at, at_line);
            }
            self.skip_trivia();
            let ghost before = token_views(tokens@);
            if self.pos >= self.chars.len() {
                proof {
                    reveal_strlit("");
                    assert(""@ =~= Seq::<char>::empty());
                }
                tokens.push(Token { kind: TokenKind::Eof, text: String::new(), line: self.line });
                assert(token_views(tokens@) =~= before + seq![TokenView { kind: TokenKind::Eof, text: ""@, line: self.line }]);
                return Ok(tokens);
            }
            proof {
                lemma_token_at(s, self.pos as int, self.line);
            }
            match self.next_token() {
                Ok(t) => {
                    let ghost v = t@;
                    tokens.push(t);
                    proof {
                        assert(token_views(tokens@) =~= before.push(v));
                        match lexed(s, self.pos as int, self.line).2 {
                            Ok(ts) => {
                                assert(before + (seq![v] + ts) =~= before.push(v) + ts);
                            },
                            Err(_) => {},
                        }
                    }
                },
                Err(e) => {
                    return Err(e);
                },
            }
        }
    }
}

/// A result of lexing with tokens in front of it.
pub open spec fn after_tokens(
    first: Seq<TokenView>,
    r: (int, usize, Result<Seq<TokenView>, Seq<char>>),
) -> (int, usize, Result<Seq<TokenView>, Seq<char>>) {
    (r.0, r.1, match r.2 {
        Ok(ts) => Ok(first + ts),
        Err(m) => Err(m),
    })
}

/// The tokens of a source text end with that of its end, and no other token is of
/// that kind.
pub proof fn law_tokens_end(s: Seq<char>, i: int, line: usize)
    requires
        0 <= i,
    ensures
        match lexed(s, i, line).2 {
            Ok(ts) => ts.len() > 0 && ts.last().kind is Eof && ts.last().text.len() == 0 && forall|k: int|
                0 <= k < ts.len() - 1 ==> !((#[trigger] ts[k]).kind is Eof),
            Err(_) => true,
        },
    decreases s.len() + 1 - i,
{
    reveal_strlit("");
    let (p, l) = past_trivia(s, i, line);
    lemma_past_trivia(s, i, line);
    if p < s.len() {
        lemma_token_at(s, p, l);
        match token_at(s, p, l) {
            Err(_) => {},
            Ok((t, j, m)) => {
                law_tokens_end(s, j, m);
                match lexed(s, j, m).2 {
                    Ok(ts) => {
                        assert((seq![t] + ts).last() == ts.last());
                    },
                    Err(_) => {},
                }
            },
        }
    }
}

/// The lines of the tokens of a source text never fall, and start at the line where
/// the lexer stands.
pub proof fn law_lines_rise(s: Seq<char>, i: int, line: usize)
    requires
        0 <= i,
    ensures
        match lexed(s, i, line).2 {
            Ok(ts) => (forall|k: int| 0 <= k < ts.len() ==> line <= (#[trigger] ts[k]).line) && forall|k: int, n: int|
                0 <= k <= n < ts.len() ==> (#[trigger] ts[k]).line <= (#[trigger] ts[n]).line,
            Err(_) => true,
        },
    decreases s.len() + 1 - i,
{
    let (p, l) = past_trivia(s, i, line);
    lemma_past_trivia(s, i, line);
    if p < s.len() {
        lemma_token_at(s, p, l);
        match token_at(s, p, l) {
            Err(_) => {},
            Ok((t, j, m)) => {
                law_lines_rise(s, j, m);
            },
        }
    }
}

/// How many line breaks stand before a position.
pub open spec fn newlines(s: Seq<char>, i: int) -> nat
    decreases i,
{
    if i <= 0 {
        0
    } else if i <= s.len() && s[i - 1] == '\n' {
        newlines(s, i - 1) + 1
    } else {
        newlines(s, i - 1)
    }
}

/// Where the tokens from a position on start; the last one is the end of the source.
pub open spec fn token_starts(s: Seq<char>, i: int, line: usize) -> Seq<int>
    decreases s.len() + 1 - i,
{
    let (p, l) = past_trivia(s, i, line);
    if i < 0 || p >= s.len() {
        seq![p]
    } else {
        proof {
            lemma_past_trivia(s, i, line);
            lemma_token_at(s, p, l);
        }
        match token_at(s, p, l) {
            Err(_) => seq![p],
            Ok((_, j, m)) => seq![p] + token_starts(s, j, m),
        }
    }
}

/// Whether a line number is that of a position.
pub open spec fn lined(s: Seq<char>, i: int, line: usize) -> bool {
    line == 1 + newlines(s, i)
}

proof fn lemma_newlines_bound(s: Seq<char>, i: int)
    requires
        0 <= i,
    ensures
        newlines(s, i) <= s.len(),
        newlines(s, i) <= i,
    decreases i,
{
    if i > 0 {
        lemma_newlines_bound(s, i - 1);
        if i > s.len() {
            assert(newlines(s, i) == newlines(s, i - 1));
        }
    }
}

proof fn lemma_same_line(s: Seq<char>, i: int, j: int)
    requires
        0 <= i <= j,
        forall|k: int| i <= k < j && k < s.len() ==> s[k] != '\n',
    ensures
        newlines(s, j) == newlines(s, i),
    decreases j - i,
{
    if i < j {
        lemma_same_line(s, i, j - 1);
    }
}

proof fn lemma_lined_step(s: Seq<char>, i: int, line: usize)
    requires
        0 <= i < s.len() < usize::MAX,
        lined(s, i, line),
    ensures
        lined(s, i + 1, line_after(line, s[i])),
{
    lemma_newlines_bound(s, i);
}

proof fn lemma_lined_line_end(s: Seq<char>, i: int)
    requires
        0 <= i <= s.len(),
    ensures
        newlines(s, line_end(s, i)) == newlines(s, i),
    decreases s.len() - i,
{
    if i < s.len() && s[i] != '\n' {
        lemma_lined_line_end(s, i + 1);
        assert(newlines(s, i + 1) == newlines(s, i));
    }
}

proof fn lemma_lined_comment(s: Seq<char>, i: int, line: usize)
    requires
        0 <= i <= s.len() < usize::MAX,
        lined(s, i, line),
    ensures
        lined(s, comment_end(s, i, line).0, comment_end(s, i, line).1),
    decreases s.len() - i,
{
    if i < s.len() {
        if s[i] == '*' && char_at(s, i + 1) == Some('/') {
            lemma_same_line(s, i, i + 2);
        } else {
            lemma_lined_step(s, i, line);
            lemma_lined_comment(s, i + 1, line_after(line, s[i]));
        }
    }
}

proof fn lemma_lined_trivia(s: Seq<char>, i: int, line: usize)
    requires
        0 <= i,
        s.len() < usize::MAX,
        lined(s, i, line),
    ensures
        lined(s, past_trivia(s, i, line).0, past_trivia(s, i, line).1),
    decreases s.len() - i,
{
    if i < s.len() {
        if white(s[i]) {
            lemma_lined_step(s, i, line);
            lemma_lined_trivia(s, i + 1, line_after(line, s[i]));
        } else if s[i] == '/' && char_at(s, i + 1) == Some('/') {
            lemma_line_end(s, i + 1);
            lemma_lined_line_end(s, i);
            lemma_lined_trivia(s, line_end(s, i), line);
        } else if s[i] == '/' && char_at(s, i + 1) == Some('*') {
            lemma_comment_end(s, i + 2, line);
            lemma_same_line(s, i, i + 2);
            lemma_lined_comment(s, i + 2, line);
            let (j, l) = comment_end(s, i + 2, line);
            lemma_lined_trivia(s, j, l);
        }
    }
}

proof fn lemma_lined_string(s: Seq<char>, i: int, quote: char, line: usize)
    requires
        0 <= i <= s.len() < usize::MAX,
        quote != '\n',
        lined(s, i, line),
    ensures
        lined(s, string_rest(s, i, quote, line).0, string_rest(s, i, quote, line).1),
    decreases s.len() - i,
{
    if i < s.len() {
        if s[i] == quote {
            lemma_same_line(s, i, i + 1);
        } else if s[i] == '\\' {
            lemma_same_line(s, i, i + 1);
            if i + 1 < s.len() {
                lemma_lined_step(s, i + 1, line);
                lemma_lined_string(s, i + 2, quote, line_after(line, s[i + 1]));
            } else {
                lemma_same_line(s, i, i + 2);
            }
        } else {
            lemma_lined_step(s, i, line);
            lemma_lined_string(s, i + 1, quote, line_after(line, s[i]));
        }
    }
}

proof fn lemma_lined_number(s: Seq<char>, i: int)
    requires
        0 <= i <= s.len(),
    ensures
        newlines(s, number_end(s, i)) == newlines(s, i),
    decreases s.len() - i,
{
    if i < s.len() && number_char(s[i]) {
        lemma_lined_number(s, i + 1);
        assert(newlines(s, i + 1) == newlines(s, i));
    }
}

proof fn lemma_lined_word(s: Seq<char>, i: int)
    requires
        0 <= i <= s.len(),
    ensures
        newlines(s, word_end(s, i)) == newlines(s, i),
    decreases s.len() - i,
{
    if i < s.len() && word_char(s[i]) {
        lemma_lined_word(s, i + 1);
        assert(newlines(s, i + 1) == newlines(s, i));
    }
}

proof fn lemma_lined_token(s: Seq<char>, i: int, line: usize)
    requires
        0 <= i < s.len() < usize::MAX,
        lined(s, i, line),
    ensures
        match token_at(s, i, line) {
            Ok((t, j, l)) => lined(s, j, l),
            Err(_) => true,
        },
{
    lemma_lined_number(s, i);
    lemma_lined_word(s, i);
    lemma_lined_punct(s, i);
    if s[i] == '"' || s[i] == '\'' {
        lemma_same_line(s, i, i + 1);
        lemma_lined_string(s, i + 1, s[i], line);
    }
}

proof fn lemma_lined_punct(s: Seq<char>, i: int)
    requires
        0 <= i < s.len(),
    ensures
        newlines(s, i + punct_len(s, i)) == newlines(s, i),
{
    lemma_same_line(s, i, i + punct_len(s, i));
}

/// The line of every token is one more than the number of line breaks before its first
/// character, and that of the end one more than the number of all line breaks.
pub proof fn law_token_lines(s: Seq<char>, i: int, line: usize)
    requires
        0 <= i,
        s.len() < usize::MAX,
        lined(s, i, line),
    ensures
        match lexed(s, i, line).2 {
            Ok(ts) => ts.len() == token_starts(s, i, line).len() && (forall|k: int|
                0 <= k < ts.len() ==> (#[trigger] ts[k]).line == 1 + newlines(s, token_starts(s, i, line)[k])) && ts.last().line == 1 + newlines(
                s,
                s.len() as int,
            ),
            Err(_) => true,
        },
    decreases s.len() + 1 - i,
{
    let (p, l) = past_trivia(s, i, line);
    lemma_past_trivia(s, i, line);
    lemma_lined_trivia(s, i, line);
    if p < s.len() {
        lemma_token_at(s, p, l);
        lemma_lined_token(s, p, l);
        match token_at(s, p, l) {
            Err(_) => {},
            Ok((t, j, m)) => {
                law_token_lines(s, j, m);
                match lexed(s, j, m).2 {
                    Ok(ts) => {
                        let rest = token_starts(s, j, m);
                        assert forall|k: int| 0 <= k < (seq![t] + ts).len() implies (#[trigger] (seq![t] + ts)[k]).line == 1 + newlines(
                            s,
                            (seq![p] + rest)[k],
                        ) by {
                            if k > 0 {
                                assert(ts[k - 1].line == 1 + newlines(s, rest[k - 1]));
                            }
                        }
                        assert((seq![t] + ts).last() == ts.last());
                    },
                    Err(_) => {},
                }
            },
        }
    } else {
        lemma_same_line(s, s.len() as int, p);
    }
}

/// A lexer that has come to the end gives only the token of the end from then on, and
/// stays where it is.
pub proof fn law_lexed_again(s: Seq<char>, i: int, line: usize)
    requires
        0 <= i,
    ensures
        match lexed(s, i, line) {
            (p, l, Ok(ts)) => lexed(s, p, l) == (p, l, Ok::<_, Seq<char>>(seq![ts.last()])),
            _ => true,
        },
    decreases s.len() + 1 - i,
{
    let (p, l) = past_trivia(s, i, line);
    lemma_past_trivia(s, i, line);
    if p < s.len() {
        lemma_token_at(s, p, l);
        match token_at(s, p, l) {
            Err(_) => {},
            Ok((t, j, m)) => {
                law_lexed_again(s, j, m);
                law_tokens_end(s, j, m);
                match lexed(s, j, m).2 {
                    Ok(ts) => {
                        assert((seq![t] + ts).last() == ts.last());
                    },
                    Err(_) => {},
                }
            },
        }
    }
}

} // verus!
