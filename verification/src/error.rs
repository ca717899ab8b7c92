//! What can go wrong while reading a layout.

use crate::number::IntErrorKind;
use vstd::prelude::*;

verus! {

#[derive(Debug)]
pub enum ParserError {
    /// A failure to read the layout text; it carries the description of
    /// the failure.
    IOError(String),
    /// A layout that does not follow the grammar, with a message.
    Message(String),
    /// A number that does not fit its slot.
    ParseIntError(IntErrorKind),
}

/// A parser error as a value.
pub enum ParserErrorView {
    IOError(Seq<char>),
    Message(Seq<char>),
    ParseIntError(IntErrorKind),
}

impl View for ParserError {
    type V = ParserErrorView;

    open spec fn view(&self) -> ParserErrorView {
        match self {
            ParserError::IOError(m) => ParserErrorView::IOError(m@),
            ParserError::Message(m) => ParserErrorView::Message(m@),
            ParserError::ParseIntError(k) => ParserErrorView::ParseIntError(*k),
        }
    }
}

/// `s` written as a Rust string literal, the way `format!("{:?}", s)` writes
/// it: in double quotes, with special characters escaped.
pub uninterp spec fn spec_debug_str(s: Seq<char>) -> Seq<char>;

/// Calls `<str as Debug>::fmt` through `format!`. The contract ties the
/// result to the text only: the escaping rules are not restated here.
#[verifier::external_body]
pub(crate) fn debug_str(s: &str) -> (r: String)
    ensures
        r@ == spec_debug_str(s@),
{
    format!("{:?}", s)
}

} // verus!
