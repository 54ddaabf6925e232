//! Conversions of values to numbers and texts that call no function of a script.
//!
//! Where a number has no exact text of its own, or a text no exact number, the host
//! is needed; these conversions then say so.
use vstd::prelude::*;
use crate::conv::big_numeral;
use crate::convert::wrapped;
use crate::engine::{Engine, EngineView};
use crate::make::regex_text;
use crate::number::{NAN, ONE};
use crate::numtext::{format_number, numeral, printed, read_decimal, str_to_number_value, Numeral, NumeralView, Printed, PrintedView};
use crate::ops::items_of;
use crate::scan::slice;
use crate::text::{chars_of, joined, owned};
use crate::value::{Cell, Value};

verus! {

/// The number of a value: an object that wraps a primitive is that primitive, and
/// any other object is not a number. Wrappers are looked into `n` times.
pub open spec fn number_in(s: EngineView, v: Value, n: nat) -> NumeralView
    decreases n,
{
    if n == 0 {
        NumeralView::Known(NAN)
    } else {
        match wrapped(s.store, v) {
            Some(p) => number_in(s, p, (n - 1) as nat),
            None => match v {
                Value::Null => NumeralView::Known(0),
                Value::Boolean(b) => NumeralView::Known(if b { ONE } else { 0 }),
                Value::Number(b) => NumeralView::Known(b),
                Value::String(a) => numeral(s.store.text(a)),
                Value::BigInt(a) => big_numeral(s.store.text(a)),
                _ => NumeralView::Known(NAN),
            },
        }
    }
}

/// The text of a value, unless a number in it has no exact text. Wrappers and arrays
/// are looked into `n` times.
pub open spec fn text_in(s: EngineView, v: Value, n: nat) -> Option<Seq<char>>
    decreases n, 0nat,
{
    if n == 0 {
        None
    } else {
        match wrapped(s.store, v) {
            Some(p) => text_in(s, p, (n - 1) as nat),
            None => match v {
                Value::Undefined => Some("undefined"@),
                Value::Null => Some("null"@),
                Value::Boolean(b) => Some(if b { "true"@ } else { "false"@ }),
                Value::Number(b) => match printed(b) {
                    PrintedView::Known(t) => Some(t),
                    _ => None,
                },
                Value::String(a) => Some(s.store.text(a)),
                Value::BigInt(a) => Some(s.store.text(a)),
                Value::Regex(id) => Some(regex_text(s.store, id)),
                Value::Symbol(id) => Some("Symbol("@ + description_in(s, id) + ")"@),
                Value::MapRef(_) => Some("[object Map]"@),
                Value::SetRef(_) => Some("[object Set]"@),
                Value::WeakMap(_) => Some("[object WeakMap]"@),
                Value::WeakSet(_) => Some("[object WeakSet]"@),
                Value::Promise(_) => Some("[object Promise]"@),
                Value::Object(_) => Some("[object Object]"@),
                Value::Array(a) => list_text(s, items_of(s.store.heap, a), 0, ""@, (n - 1) as nat),
                Value::Function(_) => Some("function"@),
                Value::NativeFunction(_) => Some("function"@),
            },
        }
    }
}

/// The texts of values from a place on, behind a text, with commas between them.
pub open spec fn list_text(s: EngineView, list: Seq<Value>, i: int, acc: Seq<char>, n: nat) -> Option<Seq<char>>
    decreases n, (if i < list.len() { list.len() - i } else { 0 }) as nat,
{
    if i < 0 || i >= list.len() {
        Some(acc)
    } else {
        match text_in(s, list[i], n) {
            None => None,
            Some(t) => list_text(s, list, i + 1, if i == 0 { acc + t } else { acc + ","@ + t }, n),
        }
    }
}

/// The description of a symbol; nothing where it has none.
pub open spec fn description_in(s: EngineView, id: usize) -> Seq<char> {
    if s.symbols.contains_key(id) { s.store.text(s.symbols[id]) } else { ""@ }
}

/// The text of an own property of an object, if it has one.
pub open spec fn own_text(s: EngineView, id: usize, key: usize, n: nat) -> Option<Option<Seq<char>>> {
    if s.store.heap.props(id).contains_key(key) { Some(text_in(s, s.store.heap.props(id)[key].value, n)) } else { None }
}

/// A thrown value in words: an object with a name, a message or both shows them, and
/// anything else its text.
pub open spec fn message_in(s: EngineView, v: Value, n: nat) -> Option<Seq<char>> {
    match v {
        Value::Object(id) => match (own_text(s, id, s.store.n.name, n), own_text(s, id, s.store.n.message, n)) {
            (None, None) => text_in(s, v, n),
            (None, Some(m)) => m,
            (Some(t), None) => t,
            (Some(None), Some(_)) => None,
            (Some(_), Some(None)) => None,
            (Some(Some(t)), Some(Some(m))) => Some(if m.len() > 0 { t + ": "@ + m } else { t }),
        },
        _ => text_in(s, v, n),
    }
}

/// How often wrappers and arrays are looked into: as often as there are cells, so that
/// only a value that contains itself is cut short.
#[verifier::allow_in_spec]
pub fn depth(cells: usize) -> (r: usize)
    returns
        (if cells < usize::MAX - 1 { (cells + 2) as usize } else { cells }),
{
    if cells < usize::MAX - 1 { cells + 2 } else { cells }
}

impl<'a> EngineView<'a> {
    /// How often wrappers and arrays are looked into.
    pub open spec fn depth(self) -> nat {
        depth(self.store.heap.cells.len() as usize) as nat
    }
}

fn number_upto<'a>(e: &Engine<'a>, v: Value, n: usize) -> (r: Numeral)
    ensures
        r@ == number_in(e@, v, n as nat),
    decreases n,
{
    if n == 0 {
        return Numeral::Known(NAN);
    }
    match e.store.primitive_value(v) {
        Some(p) => number_upto(e, p, n - 1),
        None => match v {
            Value::Null => Numeral::Known(0),
            Value::Boolean(b) => Numeral::Known(if b { ONE } else { 0 }),
            Value::Number(b) => Numeral::Known(b),
            Value::String(a) => str_to_number_value(e.store.heap.atoms.text(a)),
            Value::BigInt(a) => {
                let t = chars_of(e.store.heap.atoms.text(a));
                if t.len() > 0 && t[0] == '-' {
                    let d = slice(&t, 1, t.len());
                    read_decimal(&d, true)
                } else {
                    read_decimal(&t, false)
                }
            },
            _ => Numeral::Known(NAN),
        },
    }
}

fn regex_string<'a>(e: &Engine<'a>, id: usize) -> (r: String)
    ensures
        r@ == regex_text(e@.store, id),
{
    let t: String = if id < e.store.heap.cells.len() {
        assert(e@.store.heap.cells[id as int] == e.store.heap.cells@[id as int]@);
        match &e.store.heap.cells[id] {
            Cell::Regex(d) => {
                let src = d.source(&e.store.heap.atoms);
                let flags = d.flag_string(&e.store.heap.atoms);
                let a = joined("/", src.as_str());
                let b = joined(a.as_str(), "/");
                joined(b.as_str(), flags.as_str())
            },
            _ => String::new(),
        }
    } else {
        String::new()
    };
    assert(t@ =~= regex_text(e@.store, id));
    t
}

fn description<'a>(e: &Engine<'a>, id: usize) -> (r: String)
    ensures
        r@ == description_in(e@, id),
{
    match e.symbols.get(id) {
        Some(a) => owned(e.store.heap.atoms.text(a)),
        None => owned(""),
    }
}

fn text_upto<'a>(e: &Engine<'a>, v: Value, n: usize) -> (r: Option<String>)
    ensures
        (match r { Some(t) => Some(t@), None => None }) == text_in(e@, v, n as nat),
    decreases n, 0nat,
{
    if n == 0 {
        return None;
    }
    match e.store.primitive_value(v) {
        Some(p) => text_upto(e, p, n - 1),
        None => match v {
            Value::Undefined => Some(owned("undefined")),
            Value::Null => Some(owned("null")),
            Value::Boolean(b) => Some(if b { owned("true") } else { owned("false") }),
            Value::Number(b) => match format_number(b) {
                Printed::Known(t) => Some(t),
                _ => None,
            },
            Value::String(a) => Some(owned(e.store.heap.atoms.text(a))),
            Value::BigInt(a) => Some(owned(e.store.heap.atoms.text(a))),
            Value::Regex(id) => Some(regex_string(e, id)),
            Value::Symbol(id) => {
                let a = joined("Symbol(", description(e, id).as_str());
                Some(joined(a.as_str(), ")"))
            },
            Value::MapRef(_) => Some(owned("[object Map]")),
            Value::SetRef(_) => Some(owned("[object Set]")),
            Value::WeakMap(_) => Some(owned("[object WeakMap]")),
            Value::WeakSet(_) => Some(owned("[object WeakSet]")),
            Value::Promise(_) => Some(owned("[object Promise]")),
            Value::Object(_) => Some(owned("[object Object]")),
            Value::Array(a) => list_upto(e, a, n - 1),
            Value::Function(_) => Some(owned("function")),
            Value::NativeFunction(_) => Some(owned("function")),
        },
    }
}

fn list_upto<'a>(e: &Engine<'a>, a: usize, n: usize) -> (r: Option<String>)
    ensures
        (match r { Some(t) => Some(t@), None => None }) == list_text(e@, items_of(e@.store.heap, a), 0, ""@, n as nat),
    decreases n, 1nat,
{
    let items = e.items(a);
    let ghost list = items@;
    let mut out = owned("");
    let mut i: usize = 0;
    while i < items.len()
        invariant
            i <= items@.len(),
            list == items@,
            list == items_of(e@.store.heap, a),
            list_text(e@, list, 0, ""@, n as nat) == list_text(e@, list, i as int, out@, n as nat),
        decreases items@.len() - i,
    {
        match text_upto(e, items[i], n) {
            None => {
                return None;
            },
            Some(t) => {
                if i > 0 {
                    out = joined(out.as_str(), ",");
                }
                out = joined(out.as_str(), t.as_str());
            },
        }
        i += 1;
    }
    Some(out)
}

fn own_upto<'a>(e: &Engine<'a>, id: usize, key: usize, n: usize) -> (r: Option<Option<String>>)
    ensures
        (match r { Some(Some(t)) => Some(Some(t@)), Some(None) => Some(None), None => None }) == own_text(e@, id, key, n as nat),
{
    match e.store.heap.get_prop(id, key) {
        Some(p) => Some(text_upto(e, p.value, n)),
        None => None,
    }
}

impl Value {
    /// The number of a value, as far as it takes no call: known, or a text that the
    /// host reads.
    pub fn to_number<'a>(self, e: &Engine<'a>) -> (r: Numeral)
        ensures
            r@ == number_in(e@, self, e@.depth()),
    {
        number_upto(e, self, depth(e.store.heap.cells.len()))
    }

    /// The text of a value, as far as it takes no call. It is missing where a number
    /// in it has no exact text, which the host prints, and where an array contains
    /// itself.
    pub fn to_string<'a>(self, e: &Engine<'a>) -> (r: Option<String>)
        ensures
            (match r { Some(t) => Some(t@), None => None }) == text_in(e@, self, e@.depth()),
    {
        text_upto(e, self, depth(e.store.heap.cells.len()))
    }

    /// A thrown value in words.
    pub fn error_message<'a>(self, e: &Engine<'a>) -> (r: Option<String>)
        ensures
            (match r { Some(t) => Some(t@), None => None }) == message_in(e@, self, e@.depth()),
    {
        let n = depth(e.store.heap.cells.len());
        match self {
            Value::Object(id) => {
                let name = own_upto(e, id, e.store.n.name, n);
                let message = own_upto(e, id, e.store.n.message, n);
                match (name, message) {
                    (None, None) => text_upto(e, self, n),
                    (None, Some(m)) => m,
                    (Some(t), None) => t,
                    (Some(None), Some(_)) => None,
                    (Some(_), Some(None)) => None,
                    (Some(Some(t)), Some(Some(m))) => {
                        if m.as_str().is_empty() {
                            Some(t)
                        } else {
                            let a = joined(t.as_str(), ": ");
                            Some(joined(a.as_str(), m.as_str()))
                        }
                    },
                }
            },
            _ => text_upto(e, self, n),
        }
    }
}

} // verus!
