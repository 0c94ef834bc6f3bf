//! Plain text as the only type of value: errors and contexts are strings.
use crate::backtrace::Backtrace;
use crate::format::{plain, FormatError, Shown, Sink};
use crate::value::{Member, Value};
use vstd::prelude::*;

verus! {

/// The text between quotation marks, with escapes, that the standard library
/// gives as the debug form of a string.
pub uninterp spec fn quoted(text: Seq<char>) -> Seq<char>;

/// Formats a string with its `Debug` of the standard library. The result is
/// claimed to be a function of the text, and has the name `quoted`.
#[verifier::external_body]
pub(crate) fn debug_str(text: &str) -> (debug: String)
    ensures
        debug@ == quoted(text@),
{
    format!("{:?}", text)
}

impl Value for String {
    /// A string has no source.
    type Source = String;

    open spec fn displayed(&self) -> Shown {
        plain(self@)
    }

    open spec fn debugged(&self) -> Shown {
        plain(quoted(self@))
    }

    open spec fn source_of(&self) -> Option<&String> {
        None
    }

    open spec fn backtrace_of(&self) -> Option<&Backtrace> {
        None
    }

    open spec fn source_displayed(source: &String) -> Shown {
        plain(source@)
    }

    open spec fn next_source(source: &String) -> Option<&String> {
        None
    }

    open spec fn source_rank(source: &String) -> nat {
        0
    }

    fn display<W: Sink>(&self, f: &mut W) -> (result: Result<(), FormatError>) {
        f.write_str(self.as_str())
    }

    fn debug<W: Sink>(&self, f: &mut W) -> (result: Result<(), FormatError>) {
        f.write_str(debug_str(self.as_str()).as_str())
    }

    fn source(&self) -> (source: Option<&String>) {
        None
    }

    fn backtrace(&self) -> (backtrace: Option<&Backtrace>) {
        None
    }

    fn display_source<W: Sink>(source: &String, f: &mut W) -> (result: Result<(), FormatError>) {
        f.write_str(source.as_str())
    }

    fn source_after(source: &String) -> (next: Option<&String>) {
        None
    }
}

impl Member<String> for String {
    open spec fn erased(self) -> String {
        self
    }

    open spec fn member(value: String) -> Option<String> {
        Some(value)
    }

    fn erase(self) -> (value: String) {
        self
    }

    fn take(value: String) -> (taken: Result<String, String>) {
        Ok(value)
    }

    fn get(value: &String) -> (found: Option<&String>) {
        Some(value)
    }

    fn get_mut(value: &mut String) -> (found: Option<&mut String>) {
        Some(value)
    }
}

} // verus!
