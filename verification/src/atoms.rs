//! The table of interned strings.
//!
//! Property keys, variable names and string values are atoms: numbers of
//! entries in this table. Two atoms are equal exactly when their texts are, so
//! comparing strings is comparing numbers.
use vstd::prelude::*;

verus! {

/// Interned strings; no text occurs twice.
pub struct Atoms {
    texts: Vec<String>,
}

spec fn no_repeats(s: Seq<String>) -> bool {
    forall|i: int, j: int| 0 <= i < j < s.len() ==> (#[trigger] s[i])@ != (#[trigger] s[j])@
}

impl Atoms {
    #[verifier::type_invariant]
    spec fn inv(self) -> bool {
        no_repeats(self.texts@)
    }

    /// The texts by atom number.
    pub closed spec fn view(&self) -> Seq<Seq<char>> {
        self.texts@.map_values(|s: String| s@)
    }

    /// The text of an atom; numbers outside the table have the empty text.
    pub open spec fn text_of(&self, atom: usize) -> Seq<char> {
        if atom < self@.len() { self@[atom as int] } else { Seq::empty() }
    }

    /// An empty table.
    pub fn new() -> (r: Self)
        ensures
            r@ == Seq::<Seq<char>>::empty(),
    {
        let r = Atoms { texts: Vec::new() };
        assert(r@ =~= Seq::<Seq<char>>::empty());
        r
    }

    /// How many strings are interned.
    pub fn len(&self) -> (r: usize)
        ensures
            r == self@.len(),
    {
        self.texts.len()
    }

    /// The atom of `text`, if it is in the table.
    pub fn find(&self, text: &str) -> (r: Option<usize>)
        ensures
            match r {
                Some(i) => i < self@.len() && self@[i as int] == text@,
                None => !self@.contains(text@),
            },
    {
        let mut i: usize = 0;
        while i < self.texts.len()
            invariant
                i <= self.texts@.len(),
                forall|j: int| 0 <= j < i ==> (#[trigger] self.texts@[j])@ != text@,
            decreases self.texts@.len() - i,
        {
            if same_text(self.texts[i].as_str(), text) {
                return Some(i);
            }
            i += 1;
        }
        proof {
            if self@.contains(text@) {
                let j = choose|j: int| 0 <= j < self@.len() && self@[j] == text@;
                assert(self.texts@[j]@ == text@);
            }
        }
        None
    }

    /// The atom of `text`, which is entered into the table if it is new.
    ///
    /// Atoms that exist keep their number and their text.
    pub fn intern(&mut self, text: &str) -> (r: usize)
        ensures
            r < final(self)@.len(),
            final(self)@[r as int] == text@,
            final(self)@.no_duplicates(),
            old(self)@.contains(text@) ==> final(self)@ == old(self)@,
            !old(self)@.contains(text@) ==> final(self)@ == old(self)@.push(text@) && r
                == old(self)@.len(),
    {
        proof {
            use_type_invariant(&*self);
        }
        match self.find(text) {
            Some(i) => {
                assert forall|a: int, b: int| 0 <= a < self@.len() && 0 <= b < self@.len() && a
                    != b implies self@[a] != self@[b] by {
                    if a < b {
                        assert(self.texts@[a]@ != self.texts@[b]@);
                    } else {
                        assert(self.texts@[b]@ != self.texts@[a]@);
                    }
                }
                i
            },
            None => {
                let ghost before = self.texts@;
                let ghost bv = self@;
                let mut texts: Vec<String> = Vec::new();
                std::mem::swap(&mut texts, &mut self.texts);
                let n = texts.len();
                let owned = text.to_owned();
                texts.push(owned);
                proof {
                    assert forall|i: int, j: int| 0 <= i < j < texts@.len() implies (#[trigger]
                    texts@[i])@ != (#[trigger] texts@[j])@ by {
                        if j < before.len() {
                            assert(before[i]@ != before[j]@);
                        } else {
                            assert(bv[i] == before[i]@);
                        }
                    }
                }
                self.texts = texts;
                assert(self@ =~= bv.push(text@));
                assert forall|a: int, b: int| 0 <= a < self@.len() && 0 <= b < self@.len() && a
                    != b implies self@[a] != self@[b] by {
                    if a < b {
                        assert(self.texts@[a]@ != self.texts@[b]@);
                    } else {
                        assert(self.texts@[b]@ != self.texts@[a]@);
                    }
                }
                n
            },
        }
    }

    /// The text of `atom`, which is empty for a number outside the table.
    pub fn text(&self, atom: usize) -> (r: &str)
        ensures
            r@ == self.text_of(atom),
    {
        if atom < self.texts.len() {
            self.texts[atom].as_str()
        } else {
            let e = "";
            proof {
                reveal_strlit("");
                assert(e@ =~= Seq::<char>::empty());
            }
            e
        }
    }
}

/// `str`'s `==` of the standard library: true exactly when both hold the same
/// characters.
pub assume_specification[ <str as PartialEq>::eq ](a: &str, b: &str) -> (r: bool)
    ensures
        r == (a@ == b@),
;

/// Whether two strings hold the same characters.
pub fn same_text(a: &str, b: &str) -> (r: bool)
    ensures
        r == (a@ == b@),
{
    *a == *b
}

} // verus!
