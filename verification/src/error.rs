//! Errors of the front ends.
use vstd::prelude::*;

verus! {

/// Why a source text was refused.
#[derive(Debug)]
pub enum Error {
    /// It does not follow the grammar; the message says where.
    Parse(String),
    /// It uses a feature that the engine lacks.
    Unimplemented(String),
}

/// The contents of an [`Error`].
#[verifier::ext_equal]
pub enum ErrorView {
    Parse(Seq<char>),
    Unimplemented(Seq<char>),
}

impl Error {
    /// The contents.
    pub open spec fn view(&self) -> ErrorView {
        match *self {
            Error::Parse(m) => ErrorView::Parse(m@),
            Error::Unimplemented(m) => ErrorView::Unimplemented(m@),
        }
    }

    /// The message.
    pub fn message(&self) -> (r: &str)
        ensures
            self@ == ErrorView::Parse(r@) || self@ == ErrorView::Unimplemented(r@),
    {
        match self {
            Error::Parse(m) => m.as_str(),
            Error::Unimplemented(m) => m.as_str(),
        }
    }
}

} // verus!
