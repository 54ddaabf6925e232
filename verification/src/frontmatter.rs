//! The front matter of a conformance test: the block between `/*---` and
//! `---*/` that says how the test is to be run.
use vstd::prelude::*;
use crate::scan::{
    begins, find_from, is_text, lines, parts, position, slice, split, split_lines, stands_at, trim,
    trimmed, unquote, unquoted, views,
};
use crate::text::{chars_of, string_from, texts};

verus! {

/// What the front matter of a test says.
pub struct Meta {
    pub negative_phase: Option<String>,
    pub negative_type: Option<String>,
    pub only_strict: bool,
    pub no_strict: bool,
    pub raw: bool,
    pub module: bool,
    pub is_async: bool,
    pub includes: Vec<String>,
    pub features: Vec<String>,
}

/// The contents of a [`Meta`].
#[verifier::ext_equal]
pub struct MetaView {
    pub negative_phase: Option<Seq<char>>,
    pub negative_type: Option<Seq<char>>,
    pub only_strict: bool,
    pub no_strict: bool,
    pub raw: bool,
    pub module: bool,
    pub is_async: bool,
    pub includes: Seq<Seq<char>>,
    pub features: Seq<Seq<char>>,
}

/// The view of an optional string.
pub open spec fn opt_text(s: Option<String>) -> Option<Seq<char>> {
    match s {
        Some(s) => Some(s@),
        None => None,
    }
}

impl Meta {
    /// The contents.
    pub open spec fn view(&self) -> MetaView {
        MetaView {
            negative_phase: opt_text(self.negative_phase),
            negative_type: opt_text(self.negative_type),
            only_strict: self.only_strict,
            no_strict: self.no_strict,
            raw: self.raw,
            module: self.module,
            is_async: self.is_async,
            includes: texts(self.includes@),
            features: texts(self.features@),
        }
    }
}

/// What a test without front matter says.
pub open spec fn plain_meta() -> MetaView {
    MetaView {
        negative_phase: None,
        negative_type: None,
        only_strict: false,
        no_strict: false,
        raw: false,
        module: false,
        is_async: false,
        includes: Seq::empty(),
        features: Seq::empty(),
    }
}

/// The key whose list or nested keys the next lines belong to.
#[derive(Clone, Copy, PartialEq, Eq, Structural, Debug)]
pub enum Section {
    Nothing,
    Negative,
    Flags,
    Includes,
    Features,
}

/// The section that a key opens.
pub open spec fn section_of(key: Seq<char>) -> Section {
    if key == "negative"@ {
        Section::Negative
    } else if key == "flags"@ {
        Section::Flags
    } else if key == "includes"@ {
        Section::Includes
    } else if key == "features"@ {
        Section::Features
    } else {
        Section::Nothing
    }
}

/// The state between two lines of the block.
#[verifier::ext_equal]
pub struct FrontView {
    pub meta: MetaView,
    pub section: Section,
    pub neg_phase: Seq<char>,
    pub neg_type: Seq<char>,
}

/// The effect of one item of a list.
pub open spec fn with_item(m: MetaView, section: Section, item: Seq<char>) -> MetaView {
    match section {
        Section::Flags => if item == "onlyStrict"@ {
            MetaView { only_strict: true, ..m }
        } else if item == "noStrict"@ {
            MetaView { no_strict: true, ..m }
        } else if item == "raw"@ {
            MetaView { raw: true, ..m }
        } else if item == "module"@ {
            MetaView { module: true, ..m }
        } else if item == "async"@ {
            MetaView { is_async: true, ..m }
        } else {
            m
        },
        Section::Includes => MetaView { includes: m.includes.push(item), ..m },
        Section::Features => MetaView { features: m.features.push(item), ..m },
        _ => m,
    }
}

/// One entry of an inline list, without white space and quotes.
pub open spec fn entry_text(item: Seq<char>) -> Seq<char> {
    trimmed(unquoted(unquoted(trimmed(item), '"'), '\''))
}

/// The effect of the entries of an inline list.
pub open spec fn with_entries(m: MetaView, section: Section, items: Seq<Seq<char>>) -> MetaView
    decreases items.len(),
{
    if items.len() == 0 {
        m
    } else {
        let before = with_entries(m, section, items.drop_last());
        let it = entry_text(items.last());
        if it.len() == 0 { before } else { with_item(before, section, it) }
    }
}

/// The effect of one trimmed line. Inside `negative` its keys are read until the key of
/// another section comes.
pub open spec fn after_line(f: FrontView, line: Seq<char>) -> FrontView {
    if line.len() == 0 {
        f
    } else if stands_at(line, "- "@, 0) {
        FrontView { meta: with_item(f.meta, f.section, trimmed(line.subrange(2, line.len() as int))), ..f }
    } else {
        match position(line, ":"@, 0) {
            None => f,
            Some(c) => {
                let key = trimmed(line.subrange(0, c));
                let val = trimmed(line.subrange(c + 1, line.len() as int));
                if val.len() >= 2 && val[0] == '[' && val.last() == ']' {
                    FrontView {
                        meta: with_entries(f.meta, section_of(key), parts(val.subrange(1, val.len() - 1), ',')),
                        section: Section::Nothing,
                        ..f
                    }
                } else if val == "|"@ || val == ">"@ {
                    FrontView { section: Section::Nothing, ..f }
                } else if f.section == Section::Negative {
                    if key == "phase"@ {
                        FrontView { neg_phase: val, ..f }
                    } else if key == "type"@ {
                        FrontView { neg_type: val, ..f }
                    } else if section_of(key) != Section::Nothing {
                        FrontView { section: section_of(key), ..f }
                    } else {
                        f
                    }
                } else {
                    FrontView { section: section_of(key), ..f }
                }
            },
        }
    }
}

/// The effect of the lines of the block.
pub open spec fn after_lines(f: FrontView, ls: Seq<Seq<char>>) -> FrontView
    decreases ls.len(),
{
    if ls.len() == 0 { f } else { after_line(after_lines(f, ls.drop_last()), trimmed(ls.last())) }
}

/// The block between the markers.
pub open spec fn block(src: Seq<char>) -> Option<Seq<char>> {
    match position(src, "/*---"@, 0) {
        None => None,
        Some(a) => {
            let rest = src.subrange(a + 5, src.len() as int);
            match position(rest, "---*/"@, 0) {
                None => None,
                Some(e) => Some(rest.subrange(0, e)),
            }
        },
    }
}

/// The start of the reading of a block.
pub open spec fn front_start() -> FrontView {
    FrontView { meta: plain_meta(), section: Section::Nothing, neg_phase: Seq::empty(), neg_type: Seq::empty() }
}

/// What a whole block says.
pub open spec fn front_end(f: FrontView) -> MetaView {
    if f.neg_phase.len() > 0 || f.neg_type.len() > 0 {
        MetaView { negative_phase: Some(f.neg_phase), negative_type: Some(f.neg_type), ..f.meta }
    } else {
        f.meta
    }
}

/// What the front matter of a source text says.
pub open spec fn front_matter(src: Seq<char>) -> MetaView {
    match block(src) {
        None => plain_meta(),
        Some(b) => front_end(after_lines(front_start(), lines(b))),
    }
}

struct Front {
    meta: Meta,
    section: Section,
    neg_phase: String,
    neg_type: String,
}

impl Front {
    spec fn view(&self) -> FrontView {
        FrontView { meta: self.meta@, section: self.section, neg_phase: self.neg_phase@, neg_type: self.neg_type@ }
    }
}

fn new_meta() -> (r: Meta)
    ensures
        r@ == plain_meta(),
{
    let r = Meta {
        negative_phase: None,
        negative_type: None,
        only_strict: false,
        no_strict: false,
        raw: false,
        module: false,
        is_async: false,
        includes: Vec::new(),
        features: Vec::new(),
    };
    assert(r@ =~= plain_meta());
    r
}

fn whole(v: &Vec<char>) -> (r: String)
    ensures
        r@ == v@,
{
    assert(v@.subrange(0, v@.len() as int) =~= v@);
    string_from(v, 0, v.len())
}

fn section_named(key: &Vec<char>) -> (r: Section)
    ensures
        r == section_of(key@),
{
    if is_text(key, "negative") {
        Section::Negative
    } else if is_text(key, "flags") {
        Section::Flags
    } else if is_text(key, "includes") {
        Section::Includes
    } else if is_text(key, "features") {
        Section::Features
    } else {
        Section::Nothing
    }
}

fn add_item(m: &mut Meta, section: Section, item: &Vec<char>)
    ensures
        final(m)@ == with_item(old(m)@, section, item@),
{
    let ghost before = m@;
    match section {
        Section::Flags => {
            if is_text(item, "onlyStrict") {
                m.only_strict = true;
            } else if is_text(item, "noStrict") {
                m.no_strict = true;
            } else if is_text(item, "raw") {
                m.raw = true;
            } else if is_text(item, "module") {
                m.module = true;
            } else if is_text(item, "async") {
                m.is_async = true;
            }
        },
        Section::Includes => {
            m.includes.push(whole(item));
            assert(m@.includes =~= before.includes.push(item@));
        },
        Section::Features => {
            m.features.push(whole(item));
            assert(m@.features =~= before.features.push(item@));
        },
        _ => {},
    }
    assert(m@ =~= with_item(before, section, item@));
}

fn add_entries(m: &mut Meta, section: Section, items: &Vec<Vec<char>>)
    ensures
        final(m)@ == with_entries(old(m)@, section, views(items@)),
{
    let ghost start = m@;
    let ghost vs = views(items@);
    let mut i: usize = 0;
    assert(vs.take(0).len() == 0);
    while i < items.len()
        invariant
            i <= items@.len(),
            vs == views(items@),
            m@ == with_entries(start, section, vs.take(i as int)),
        decreases items@.len() - i,
    {
        assert(vs.take(i + 1).drop_last() =~= vs.take(i as int));
        assert(vs.take(i + 1).last() == items@[i as int]@);
        let a = trim(&items[i]);
        let b = unquote(&a, '"');
        let c = unquote(&b, '\'');
        let it = trim(&c);
        if it.len() > 0 {
            add_item(m, section, &it);
        }
        i += 1;
    }
    assert(vs.take(i as int) =~= vs);
}

fn read_line(f: &mut Front, line: &Vec<char>)
    ensures
        final(f)@ == after_line(old(f)@, line@),
{
    let ghost before = f@;
    let n = line.len();
    if n == 0 {
        return;
    }
    proof {
        reveal_strlit("- ");
        reveal_strlit(":");
        reveal_strlit("|");
        reveal_strlit(">");
    }
    if begins(line, "- ") {
        let rest = slice(line, 2, n);
        let item = trim(&rest);
        let section = f.section;
        add_item(&mut f.meta, section, &item);
        assert(f@ =~= after_line(before, line@));
        return;
    }
    match find_from(line, ":", 0) {
        None => {},
        Some(c) => {
            let left = slice(line, 0, c);
            let key = trim(&left);
            let right = slice(line, c + 1, n);
            let val = trim(&right);
            let k = val.len();
            if k >= 2 && val[0] == '[' && val[k - 1] == ']' {
                let inner = slice(&val, 1, k - 1);
                let items = split(&inner, ',');
                add_entries(&mut f.meta, section_named(&key), &items);
                f.section = Section::Nothing;
            } else if is_text(&val, "|") || is_text(&val, ">") {
                f.section = Section::Nothing;
            } else if f.section == Section::Negative {
                if is_text(&key, "phase") {
                    f.neg_phase = whole(&val);
                } else if is_text(&key, "type") {
                    f.neg_type = whole(&val);
                } else {
                    let next = section_named(&key);
                    if next != Section::Nothing {
                        f.section = next;
                    }
                }
            } else {
                f.section = section_named(&key);
            }
            assert(f@ =~= after_line(before, line@));
        },
    }
}

/// Reads the front matter of a test. A source without a block, or with one that
/// is not closed, says nothing.
pub fn parse_frontmatter(src: &str) -> (r: Meta)
    ensures
        r@ == front_matter(src@),
{
    let chars = chars_of(src);
    proof {
        reveal_strlit("/*---");
    }
    let a = match find_from(&chars, "/*---", 0) {
        Some(a) => a,
        None => {
            return new_meta();
        },
    };
    let total = chars.len();
    let rest = slice(&chars, a + 5, total);
    let e = match find_from(&rest, "---*/", 0) {
        Some(e) => e,
        None => {
            return new_meta();
        },
    };
    let body = slice(&rest, 0, e);
    let ls = split_lines(&body);
    let ghost lv = views(ls@);
    let mut f = Front { meta: new_meta(), section: Section::Nothing, neg_phase: String::new(), neg_type: String::new() };
    assert(f@ =~= front_start());
    let mut i: usize = 0;
    assert(lv.take(0).len() == 0);
    while i < ls.len()
        invariant
            i <= ls@.len(),
            lv == views(ls@),
            f@ == after_lines(front_start(), lv.take(i as int)),
        decreases ls@.len() - i,
    {
        assert(lv.take(i + 1).drop_last() =~= lv.take(i as int));
        assert(lv.take(i + 1).last() == ls@[i as int]@);
        let line = trim(&ls[i]);
        read_line(&mut f, &line);
        i += 1;
    }
    assert(lv.take(i as int) =~= lv);
    let ghost fv = f@;
    let mut meta = f.meta;
    if !f.neg_phase.as_str().is_empty() || !f.neg_type.as_str().is_empty() {
        meta.negative_phase = Some(f.neg_phase);
        meta.negative_type = Some(f.neg_type);
    }
    assert(meta@ =~= front_end(fv));
    meta
}

} // verus!
