//! The front end: source text to syntax tree.
//!
//! The text is parsed by the `oxc` parser, with TypeScript and JSX allowed; its
//! syntax tree comes as JSON and is lowered to the tree of this engine.
use vstd::prelude::*;
use crate::ast::{Program, ProgramTree};
use crate::error::{Error, ErrorView};
use crate::json::{json_of, read_json};
use crate::lower::lower_program;
use crate::lowering::{lowered, program_of, refused};
use crate::text::{joined, owned, texts};

verus! {

/// What the outside parser says of a source text: whether it gave up, its messages,
/// and the syntax tree in compact ESTree JSON.
pub uninterp spec fn estree(src: Seq<char>) -> (bool, Seq<Seq<char>>, Seq<char>);

/// Calls `oxc_parser::Parser::parse` on the text as a CommonJS script with
/// TypeScript and JSX, and `oxc_ast::ast::Program::to_estree_json` on its result: the
/// tree borrows from an arena that lives no longer than the call. The contract names
/// what they say, which depends on the text alone, and says nothing else of it.
#[verifier::external_body]
fn outside_parse(src: &str) -> (r: (bool, Vec<String>, String))
    ensures
        (r.0, texts(r.1@), r.2@) == estree(src@),
{
    let allocator = oxc_allocator::Allocator::new();
    let kind = oxc_span::SourceType::cjs().with_typescript(true).with_jsx(true);
    let ret = oxc_parser::Parser::new(&allocator, src, kind).parse();
    let messages = ret.diagnostics.iter().map(|d| d.to_string()).collect();
    (ret.panicked, messages, ret.program.to_estree_json(false, false))
}

/// Texts joined by line breaks, from a place on, behind a text.
pub open spec fn lines_joined(list: Seq<Seq<char>>, i: int, acc: Seq<char>) -> Seq<char>
    decreases list.len() - i,
{
    if i < 0 || i >= list.len() {
        acc
    } else if i == 0 {
        lines_joined(list, 1, acc + list[0])
    } else {
        lines_joined(list, i + 1, acc + "\n"@ + list[i])
    }
}

/// The script that the answer of the outside parser stands for. A text that the
/// parser gave up, or of which it has something to say, is refused.
pub open spec fn script_of(answer: (bool, Seq<Seq<char>>, Seq<char>)) -> Result<ProgramTree, ErrorView> {
    if answer.0 {
        Err(ErrorView::Parse("parser panicked"@))
    } else if answer.1.len() > 0 {
        Err(ErrorView::Parse(lines_joined(answer.1, 0, ""@)))
    } else {
        match json_of(answer.2) {
            None => Err(ErrorView::Parse("the syntax tree cannot be read"@)),
            Some(j) => program_of(j),
        }
    }
}

/// Turns the answer of the outside parser into a script.
pub fn script(panicked: bool, messages: &Vec<String>, json: &str) -> (r: Result<Program, Error>)
    ensures
        match r {
            Ok(p) => lowered(script_of((panicked, texts(messages@), json@)), p.tree()),
            Err(e) => refused(script_of((panicked, texts(messages@), json@)), e),
        },
{
    if panicked {
        return Err(Error::Parse(owned("parser panicked")));
    }
    if messages.len() > 0 {
        let ghost list = texts(messages@);
        let mut out = owned("");
        let mut i: usize = 0;
        while i < messages.len()
            invariant
                i <= messages@.len(),
                list == texts(messages@),
                lines_joined(list, 0, ""@) == lines_joined(list, i as int, out@),
            decreases messages@.len() - i,
        {
            assert(list[i as int] == messages@[i as int]@);
            if i > 0 {
                out = joined(out.as_str(), "\n");
            }
            out = joined(out.as_str(), messages[i].as_str());
            i += 1;
        }
        return Err(Error::Parse(out));
    }
    match read_json(json) {
        None => Err(Error::Parse(owned("the syntax tree cannot be read"))),
        Some(j) => lower_program(&j),
    }
}

/// Parses a source text.
pub fn parse(src: &str) -> (r: Result<Program, Error>)
    ensures
        match r {
            Ok(p) => lowered(script_of(estree(src@)), p.tree()),
            Err(e) => refused(script_of(estree(src@)), e),
        },
{
    let (panicked, messages, json) = outside_parse(src);
    script(panicked, &messages, json.as_str())
}

} // verus!
