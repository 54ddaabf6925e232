//! The lexer, the two parsers, and what they refuse.
use tengin::ast::{Arg, BinaryOp, ClassElem, Expr, Lit, LogicalOp, Pattern, Prop, PropKey, Stmt, UnaryOp, VarKind};
use tengin::error::Error;
use tengin::json::{read_json, Json};
use tengin::lexer::{Kw, Lexer, TokenKind};
use tengin::lower::{lower_program, positional_text};
use tengin::{parser, source};

fn tokens(src: &str) -> Vec<(TokenKind, String, usize)> {
    Lexer::new(src).tokenize().unwrap().into_iter().map(|t| (t.kind, t.text, t.line)).collect()
}

fn lex_error(src: &str) -> String {
    Lexer::new(src).tokenize().unwrap_err().message().to_string()
}

fn token(kind: TokenKind, text: &str, line: usize) -> (TokenKind, String, usize) {
    (kind, text.to_string(), line)
}

#[test]
fn tokens_have_kinds_texts_and_lines() {
    assert_eq!(
        tokens("var x1 =\n 'a\\n' + .5e3;"),
        vec![
            token(TokenKind::Kw(Kw::Var), "var", 1),
            token(TokenKind::Ident, "x1", 1),
            token(TokenKind::Punct, "=", 1),
            token(TokenKind::Str, "a\n", 2),
            token(TokenKind::Punct, "+", 2),
            token(TokenKind::Number, ".5e3", 2),
            token(TokenKind::Punct, ";", 2),
            token(TokenKind::Eof, "", 2),
        ]
    );
}

#[test]
fn the_end_is_the_last_token_and_the_only_one_of_its_kind() {
    for src in ["", "a", "a b // c", "/* open"] {
        let list = tokens(src);
        assert_eq!(list.last().unwrap().0, TokenKind::Eof);
        assert_eq!(list.iter().filter(|t| t.0 == TokenKind::Eof).count(), 1);
    }
}

#[test]
fn lines_of_tokens_never_fall() {
    let list = tokens("a\n/* x\n y */ b\n'c\nd' e");
    let lines: Vec<usize> = list.iter().map(|t| t.2).collect();
    assert_eq!(lines, vec![1, 3, 4, 5, 5]);
}

#[test]
fn the_line_of_a_token_counts_the_breaks_before_it() {
    let src = "a\n\n'x\ny' /* \n */ b // c\n + 1\n\n";
    let list = tokens(src);
    let starts = [0, 3, 17, 25, 27, src.len()];
    assert_eq!(list.len(), starts.len());
    for (t, i) in list.iter().zip(starts) {
        assert_eq!(t.2, 1 + src[..i].matches('\n').count(), "{}", t.1);
    }
}

#[test]
fn a_lexer_at_the_end_gives_only_the_end() {
    let mut lexer = Lexer::new("a\n b\n");
    let first = lexer.tokenize().unwrap();
    let again = lexer.tokenize().unwrap();
    assert_eq!(again.len(), 1);
    assert!(again[0].kind == TokenKind::Eof && again[0].line == first.last().unwrap().line);
}

#[test]
fn the_longest_punctuator_counts() {
    let texts: Vec<String> = tokens("=== == = !== != ! && || ++ += <=").into_iter().map(|t| t.1).collect();
    assert_eq!(texts, vec!["===", "==", "=", "!==", "!=", "!", "&&", "||", "++", "+=", "<=", ""]);
}

#[test]
fn words_beyond_ascii() {
    assert_eq!(tokens("\u{e9}t\u{e9}1")[0], token(TokenKind::Ident, "\u{e9}t\u{e9}1", 1));
    assert_eq!(tokens("a\u{663}b")[0], token(TokenKind::Ident, "a\u{663}b", 1));
    assert_eq!(lex_error("\u{663}"), "unexpected character '\u{663}'");
}

#[test]
fn unknown_characters_are_refused() {
    assert_eq!(lex_error("a # b"), "unexpected character '#'");
    assert_eq!(lex_error("a & b"), "unexpected character '&'");
}

#[test]
fn strings_without_an_end() {
    assert_eq!(tokens("'ab")[0], token(TokenKind::Str, "ab", 1));
    assert_eq!(tokens("'ab\\")[0], token(TokenKind::Str, "ab\0", 1));
    assert_eq!(tokens("'\\x\\t\\0'")[0], token(TokenKind::Str, "x\t\0", 1));
}

fn refused(src: &str) -> String {
    match parser::parse(src) {
        Ok(_) => panic!("parsed: {}", src),
        Err(e) => e.message().to_string(),
    }
}

fn only(src: &str) -> Stmt {
    let p = parser::parse(src).map_err(|e| e.message().to_string()).unwrap();
    assert!(!p.strict);
    assert_eq!(p.stmts.len(), 1);
    p.stmts.into_iter().next().unwrap()
}

fn expr(src: &str) -> Expr {
    match only(src) {
        Stmt::Expr(e) => e,
        _ => panic!("no expression: {}", src),
    }
}

/// A short notation for expressions.
fn show(e: &Expr) -> String {
    match e {
        Expr::Lit(Lit::Number(t)) => t.clone(),
        Expr::Lit(Lit::Str(t)) => format!("'{}'", t),
        Expr::Lit(Lit::Bool(b)) => b.to_string(),
        Expr::Lit(Lit::Undefined) => "undefined".to_string(),
        Expr::Lit(Lit::Null) => "null".to_string(),
        Expr::Lit(Lit::BigInt(t)) => format!("{}n", t),
        Expr::Lit(Lit::Regex { pattern, flags }) => format!("/{}/{}", pattern, flags),
        Expr::Ident(t) => t.clone(),
        Expr::This => "this".to_string(),
        Expr::Super => "super".to_string(),
        Expr::Member { obj, prop, computed, optional } => match computed {
            Some(c) => format!("{}{}[{}]", show(obj), if *optional { "?" } else { "" }, show(c)),
            None => format!("{}{}.{}", show(obj), if *optional { "?" } else { "" }, prop),
        },
        Expr::Call { callee, args, .. } => format!("{}({})", show(callee), show_args(args)),
        Expr::New { callee, args } => format!("new {}({})", show(callee), show_args(args)),
        Expr::Binary { op, left, right } => format!("({} {:?} {})", show(left), op, show(right)),
        Expr::Logical { op, left, right } => format!("({} {:?} {})", show(left), op, show(right)),
        Expr::InstanceOf { left, right } => format!("({} instanceof {})", show(left), show(right)),
        Expr::Unary { op, operand } => format!("({:?} {})", op, show(operand)),
        Expr::Ternary { cond, yes, no } => format!("({} ? {} : {})", show(cond), show(yes), show(no)),
        Expr::Assignment { target, value } => match target {
            tengin::ast::AssignTarget::Expr(t) => format!("({} = {})", show(t), show(value)),
            tengin::ast::AssignTarget::Pattern(p) => format!("({} = {})", show_pattern(p), show(value)),
        },
        Expr::ToString(e) => format!("str({})", show(e)),
        Expr::Await(e) => format!("await {}", show(e)),
        Expr::Sequence(v) => format!("({})", v.iter().map(show).collect::<Vec<_>>().join(", ")),
        Expr::Array(v) => format!("[{}]", v.len()),
        Expr::Object(v) => format!("{{{}}}", v.len()),
        Expr::Function { name, params, body } => {
            format!("function {:?} {} {}", name, params.iter().map(show_pattern).collect::<Vec<_>>().join(","), body.len())
        }
        Expr::Arrow { params, body } => format!("arrow {} {}", params.len(), body.len()),
        Expr::Class(c) => format!("class {:?} {}", c.name, c.elements.len()),
        Expr::Tagged { tag, cooked, raws, subs } => format!("{} {} {:?} {}", show(tag), cooked.len(), raws, subs.len()),
        Expr::Yield { delegated, .. } => format!("yield {}", delegated),
    }
}

fn show_args(args: &[Arg]) -> String {
    let list: Vec<String> = args
        .iter()
        .map(|a| match a {
            Arg::Expr(e) => show(e),
            Arg::Spread(e) => format!("...{}", show(e)),
        })
        .collect();
    list.join(", ")
}

fn show_pattern(p: &Pattern) -> String {
    match p {
        Pattern::Ident(t) => t.clone(),
        Pattern::Array { elems, rest } => {
            let mut list: Vec<String> = elems
                .iter()
                .map(|e| match e {
                    Some(p) => show_pattern(p),
                    None => "-".to_string(),
                })
                .collect();
            if let Some(r) = rest {
                list.push(format!("...{}", show_pattern(r)));
            }
            format!("[{}]", list.join(" "))
        }
        Pattern::Object { props, rest } => {
            let mut list: Vec<String> = props.iter().map(|p| format!("{}:{}", show_key(&p.key), show_pattern(&p.value))).collect();
            if let Some(r) = rest {
                list.push(format!("...{}", show_pattern(r)));
            }
            format!("{{{}}}", list.join(" "))
        }
        Pattern::Member(e) => show(e),
        Pattern::Default { inner, default } => format!("{}={}", show_pattern(inner), show(default)),
    }
}

fn show_key(k: &PropKey) -> String {
    match k {
        PropKey::Ident(t) => t.clone(),
        PropKey::Str(t) => format!("'{}'", t),
        PropKey::Computed(e) => format!("[{}]", show(e)),
    }
}

#[test]
fn operators_bind_by_their_level() {
    assert_eq!(show(&expr("a + b * c;")), "(a Add (b Mul c))");
    assert_eq!(show(&expr("a - b - c;")), "((a Sub b) Sub c)");
    assert_eq!(show(&expr("a < b === c;")), "((a Lt b) StrictEq c)");
    assert_eq!(show(&expr("a || b && c;")), "((a Or b) And c)");
    assert_eq!(show(&expr("!a.b[0](1, 2)++;")), "(Not (PostInc a.b[0](1, 2)))");
    assert_eq!(show(&expr("a ? b : c = d;")), "(a ? b : (c = d))");
    assert_eq!(show(&expr("typeof a instanceof b;")), "((Typeof a) instanceof b)");
    // Of an equality or a comparison the text alone counts.
    assert_eq!(show(&expr("a '==' b '<' c;")), "(a Eq (b Lt c))");
}

#[test]
fn compound_assignment_reads_its_target() {
    assert_eq!(show(&expr("a.b += 1;")), "(a.b = (a.b Add 1))");
    assert_eq!(show(&expr("x %= y = 2;")), "(x = (x Rem (y = 2)))");
}

#[test]
fn numbers_of_the_small_parser() {
    assert_eq!(show(&expr("0x10;")), "NaN");
    assert_eq!(show(&expr("12.5e3;")), "12.5e3");
}

#[test]
fn loops_of_the_small_parser() {
    match only("while (a) b;") {
        Stmt::For { init: None, cond: Some(c), update: None, body } => {
            assert_eq!(show(&c), "a");
            assert_eq!(body.len(), 1);
        }
        _ => panic!("no loop"),
    }
    match only("for (var i; i < 3; i++) { a; b; }") {
        Stmt::For { init: Some(s), cond: Some(c), update: Some(u), body } => {
            match *s {
                Stmt::Var(list, VarKind::Var) => assert!(list.len() == 1 && list[0].init.is_none()),
                _ => panic!("no declaration"),
            }
            assert_eq!(show(&c), "(i Lt 3)");
            assert_eq!(show(&u), "(PostInc i)");
            assert_eq!(body.len(), 2);
        }
        _ => panic!("no loop"),
    }
    match only("for (k in o) f(k);") {
        Stmt::ForIn { kind: VarKind::Var, name: Pattern::Ident(k), expr, .. } => assert!(k == "k" && show(&expr) == "o"),
        _ => panic!("no loop"),
    }
    match only("do { b; c; } while (a);") {
        Stmt::DoWhile { cond, body } => assert!(show(&cond) == "a" && body.len() == 2),
        _ => panic!("no loop"),
    }
    match only("for (var i = 0, n = 3; i < n; i++) { }") {
        Stmt::For { init: Some(s), .. } => match *s {
            Stmt::Var(list, VarKind::Var) => {
                let inits: Vec<String> = list.iter().map(|d| show(d.init.as_ref().unwrap())).collect();
                assert_eq!(inits, vec!["0", "3"]);
            }
            _ => panic!("no declaration"),
        },
        _ => panic!("no loop"),
    }
    assert!(matches!(only("for (;;) { }"), Stmt::For { init: None, cond: None, update: None, body } if body.is_empty()));
    assert_eq!(refused("do { } until (a);"), "expected 'while' (found 'until' at line 1)");
    assert_eq!(refused("for (a.b in o) f();"), "for-in target must be an identifier");
}

#[test]
fn statements_of_the_small_parser() {
    match only("try { a; } catch (e) { b; } finally { }") {
        Stmt::Try { try_block, catch: Some(c), finally: Some(f) } => assert!(try_block.len() == 1 && c.name == "e" && c.body.len() == 1 && f.is_empty()),
        _ => panic!("no try"),
    }
    match only("switch (a) { case 1: b; c; default: d; }") {
        Stmt::Switch { cases, .. } => {
            assert_eq!(cases.len(), 2);
            assert!(cases[0].test.is_some() && cases[0].body.len() == 2);
            assert!(cases[1].test.is_none() && cases[1].body.len() == 1);
        }
        _ => panic!("no switch"),
    }
    match only("function f(a, b) { return; }") {
        Stmt::FunctionDecl { name, params, body } => assert!(name == "f" && params.len() == 2 && matches!(body[0], Stmt::Return(None))),
        _ => panic!("no function"),
    }
    match only("function f() { return }") {
        Stmt::FunctionDecl { body, .. } => assert!(matches!(body[0], Stmt::Return(None))),
        _ => panic!("no function"),
    }
    for src in ["delete a.b", "delete a.b;"] {
        match only(src) {
            Stmt::Expr(e) => assert_eq!(show(&e), "(Delete a.b)"),
            _ => panic!("no expression"),
        }
    }
    // Only the operand belongs to it.
    assert_eq!(parser::parse("delete a.b -c;").map(|p| p.stmts.len()).unwrap_or(0), 2);
}

#[test]
fn objects_of_the_small_parser() {
    match expr("x = { get a() { }, set a(v) { }, b: 1, 'c'(d) { }, get: 2, set(e) { }, };") {
        Expr::Assignment { value, .. } => match *value {
            Expr::Object(props) => {
                assert_eq!(props.len(), 6);
                assert!(matches!(&props[0], Prop::Accessor { get: true, key: PropKey::Ident(k), params, .. } if k == "a" && params.is_empty()));
                assert!(matches!(&props[1], Prop::Accessor { get: false, key: PropKey::Ident(k), params, .. } if k == "a" && params.len() == 1));
                assert!(matches!(&props[2], Prop::Init { key: PropKey::Ident(k), .. } if k == "b"));
                assert!(matches!(&props[3], Prop::Method { key: PropKey::Str(k), params, .. } if k == "c" && params.len() == 1));
                assert!(matches!(&props[4], Prop::Init { key: PropKey::Ident(k), .. } if k == "get"));
                assert!(matches!(&props[5], Prop::Method { key: PropKey::Ident(k), .. } if k == "set"));
            }
            _ => panic!("no object"),
        },
        _ => panic!("no assignment"),
    }
    assert_eq!(refused("x = { a: 1 b: 2 };"), "expected '}' (found 'b' at line 1)");
}

#[test]
fn faults_that_the_small_parser_reports() {
    assert_eq!(refused("a"), "expected ';' (found '' at line 1)");
    assert_eq!(refused("var 1;"), "expected identifier");
    assert_eq!(refused("switch (a) { b; }"), "unexpected token in switch");
    assert_eq!(refused("x = { + };"), "expected object property key (found '+')");
    assert_eq!(refused("a = b c;\n)"), "expected ';' (found 'c' at line 1)");
    assert_eq!(refused("a = (b) + );"), "unexpected token ')' at line 1 (ctx: [\"b\", \")\", \"+\", \")\"])");
    assert_eq!(refused("class A {}"), "unexpected token 'class' at line 1 (ctx: [\"class\"])");
    assert_eq!(refused("a @ b;"), "unexpected character '@'");
}

#[test]
fn json_values() {
    match read_json("{\"a\":[1,-2.5e+3,\"x\\n\\u0007\\\"\"],\"b\":{},\"c\":[],\"d\":null,\"e\":true}") {
        Some(j) => {
            assert_eq!(j.field("a").count(), 3);
            assert_eq!(j.field("a").item(1).number(), "-2.5e+3");
            assert_eq!(j.field("a").item(2).text(), "x\n\u{7}\"");
            assert!(j.field("d").is_null() && j.field("zzz").is_null());
            assert!(j.field("e").flag() && !j.field("a").flag());
        }
        None => panic!("no value"),
    }
    assert_eq!(read_json("\"\\ud800x\"").unwrap().text(), "\u{fffd}d800x");
    assert_eq!(read_json("\"\u{fffd}y\"").unwrap().text(), "\u{fffd}y");
    assert_eq!(read_json("\"\u{fffd}y\\udfffz\"").unwrap().text(), "\u{fffd}fffdy\u{fffd}dfffz");
    for bad in ["", "[1,]", "{\"a\":}", "nul", "\"a", "[1]2", "{a:1}", "\"\\x\""] {
        assert!(read_json(bad).is_none(), "{}", bad);
    }
}

#[test]
fn numbers_without_an_exponent() {
    assert_eq!(positional_text("12.5"), "12.5");
    assert_eq!(positional_text("1e+21"), "1000000000000000000000");
    assert_eq!(positional_text("1.5e-7"), "0.00000015");
    assert_eq!(positional_text("1e+400"), "inf");
}

fn script(src: &str) -> Vec<Stmt> {
    source::parse(src).map_err(|e| e.message().to_string()).unwrap().stmts
}

fn first(src: &str) -> Expr {
    match script(src).into_iter().next() {
        Some(Stmt::Expr(e)) => e,
        _ => panic!("no expression: {}", src),
    }
}

#[test]
fn expressions_of_the_outside_parser() {
    assert_eq!(show(&first("a + b ** 2")), "(a Add (b Exp 2))");
    assert_eq!(show(&first("a ??= b")), "(a = (a Coalesce b))");
    assert_eq!(show(&first("a.b >>>= 1")), "(a.b = (a.b Ushr 1))");
    assert_eq!(show(&first("`x${a}y${b}`")), "(((('x' Add str(a)) Add 'y') Add str(b)) Add '')");
    assert_eq!(show(&first("t`x${a}\\n`")), "t 2 [\"x\", \"\\\\n\"] 1");
    assert_eq!(show(&first("a?.b[c]")), "a?.b[c]");
    assert_eq!(show(&first("new A(...b, 1)")), "new A(...b, 1)");
    assert_eq!(show(&first("x instanceof Y")), "(x instanceof Y)");
    assert_eq!(show(&first("(a as any).b")), "a.b");
    assert_eq!(show(&first("123n")), "123n");
    assert_eq!(show(&first("/a+/gi")), "/a+/gi");
    assert_eq!(show(&first("1e21")), "1e+21");
    assert_eq!(show(&first("(a, b)")), "(a, b)");
    assert_eq!(show(&first("typeof -x")), "(Typeof (Neg x))");
    assert_eq!(show(&first("--x")), "(PreDec x)");
    assert_eq!(show(&first("import('x')")), "undefined");
    assert_eq!(show(&first("(function f(a, {b, c: [d]}, e = 1, ...g) { 1; 2; })")), "function Some(\"f\") a,{b:b c:[d]},e 2");
    assert_eq!(show(&first("[a, , {b = 1, c: d.e}, ...f] = x")), "([a - {b:b c:d.e} ...f] = x)");
}

#[test]
fn classes_of_the_outside_parser() {
    match first("(class A extends B { constructor(x) {} static m() {} get g() { return 1; } #p = 2; static { } 1e21() {} })") {
        Expr::Class(c) => {
            assert_eq!(c.name.as_deref(), Some("A"));
            assert!(c.extends.is_some());
            assert_eq!(c.elements.len(), 5);
            assert!(matches!(&c.elements[0], ClassElem::Constructor { params, .. } if params.len() == 1));
            assert!(matches!(&c.elements[1], ClassElem::Method { is_static: true, get: false, .. }));
            assert!(matches!(&c.elements[2], ClassElem::Method { is_static: false, get: true, .. }));
            assert!(matches!(&c.elements[3], ClassElem::Field { key: PropKey::Ident(k), init: Some(_), .. } if k == "#p"));
            assert!(matches!(&c.elements[4], ClassElem::Method { key: PropKey::Str(k), .. } if k == "1000000000000000000000"));
        }
        _ => panic!("no class"),
    }
}

#[test]
fn statements_of_the_outside_parser() {
    let list = script("'use strict'; import x from 'y'; interface I { } export default function () { } debugger; with_: for (const [a] of b) { }");
    assert_eq!(list.len(), 5);
    assert!(matches!(list[0], Stmt::Empty));
    assert!(matches!(list[1], Stmt::Empty));
    assert!(matches!(&list[2], Stmt::Expr(Expr::Function { name: None, .. })));
    assert!(matches!(list[3], Stmt::Empty));
    match &list[4] {
        Stmt::Labeled { label, body } => {
            assert_eq!(label, "with_");
            assert!(matches!(&**body, Stmt::ForOf { kind: VarKind::Const, name: Pattern::Array { .. }, .. }));
        }
        _ => panic!("no label"),
    }
    assert!(source::parse("'use strict'; 1").map(|p| p.strict).unwrap_or(false));
    assert!(!source::parse("'use strong'; 1").map(|p| p.strict).unwrap_or(true));
    match &script("class C { }")[0] {
        Stmt::Var(list, VarKind::Let) => assert!(matches!(&list[0].pat, Pattern::Ident(n) if n == "C")),
        _ => panic!("no class"),
    }
    match &script("try { } catch ({ a }) { }")[0] {
        Stmt::Try { catch: Some(c), .. } => assert_eq!(c.name, ""),
        _ => panic!("no try"),
    }
    match &script("async function f() { } function* g() { }")[..] {
        [Stmt::FunctionDecl { body: a, .. }, Stmt::FunctionDecl { body: b, .. }] => {
            assert!(matches!(a[0], Stmt::AsyncBody(_)));
            assert!(matches!(b[0], Stmt::GeneratorBody(_)));
        }
        _ => panic!("no functions"),
    }
}

fn source_error(src: &str) -> Error {
    match source::parse(src) {
        Ok(_) => panic!("parsed: {}", src),
        Err(e) => e,
    }
}

#[test]
fn sources_that_are_refused() {
    assert!(matches!(source_error("a +"), Error::Parse(m) if !m.is_empty()));
    assert!(matches!(source_error("x = <a/>;"), Error::Parse(m) if m == "JSX runtime is not supported"));
    assert!(matches!(source_error("async function* g() { }"), Error::Unimplemented(m) if m == "async generators are not implemented"));
    assert!(matches!(source_error("async () => { for await (a of b) ; }"), Error::Unimplemented(m) if m == "for await is not implemented"));
    assert!(matches!(source_error("if (a) b: function f() { }"), Error::Parse(_)));
    assert!(matches!(source_error("switch (a) { case 1: let [x] = b; default: var x; }"), Error::Parse(_)));
}

#[test]
fn answers_of_the_outside_parser() {
    let none: Vec<String> = Vec::new();
    let two = vec!["a".to_string(), "b".to_string()];
    assert!(matches!(source::script(true, &none, "{}"), Err(Error::Parse(m)) if m == "parser panicked"));
    assert!(matches!(source::script(false, &two, "{}"), Err(Error::Parse(m)) if m == "a\nb"));
    assert!(matches!(source::script(false, &none, "{"), Err(Error::Parse(m)) if m == "the syntax tree cannot be read"));
    let json = "{\"type\":\"Program\",\"body\":[{\"type\":\"ExpressionStatement\",\"expression\":{\"type\":\"Identifier\",\"name\":\"x\"}}]}";
    match source::script(false, &none, json) {
        Ok(p) => assert!(matches!(&p.stmts[0], Stmt::Expr(Expr::Ident(n)) if n == "x")),
        Err(e) => panic!("{:?}", e),
    }
    let odd = read_json("{\"body\":[{\"type\":\"ExpressionStatement\",\"expression\":{\"type\":\"Odd\"}}]}").unwrap();
    assert!(matches!(lower_program(&odd), Err(Error::Parse(m)) if m == "unsupported expression"));
    assert!(matches!(lower_program(&Json::Null), Ok(p) if p.stmts.is_empty()));
}

#[test]
fn operators_have_names() {
    assert_eq!(format!("{:?} {:?} {:?}", BinaryOp::Ushr, LogicalOp::Coalesce, UnaryOp::PostInc), "Ushr Coalesce PostInc");
}
