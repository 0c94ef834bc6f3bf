//! Values of two types: text and numbers.
use crate::backtrace::Backtrace;
use crate::decimal::{decimal, decimal_text};
use crate::format::{plain, FormatError, Shown, Sink};
use crate::text::{debug_str, quoted};
use crate::value::{Member, Value};
use vstd::prelude::*;

verus! {

/// A text, or a number such as the code of an error.
#[derive(Debug)]
pub enum Mixed {
    Text(String),
    Number(u64),
}

impl Value for Mixed {
    /// Neither a text nor a number has a source.
    type Source = Mixed;

    open spec fn displayed(&self) -> Shown {
        match self {
            Mixed::Text(text) => plain(text@),
            Mixed::Number(number) => plain(decimal(*number as nat)),
        }
    }

    open spec fn debugged(&self) -> Shown {
        match self {
            Mixed::Text(text) => plain(quoted(text@)),
            Mixed::Number(number) => plain(decimal(*number as nat)),
        }
    }

    open spec fn source_of(&self) -> Option<&Mixed> {
        None
    }

    open spec fn backtrace_of(&self) -> Option<&Backtrace> {
        None
    }

    open spec fn source_displayed(source: &Mixed) -> Shown {
        source.displayed()
    }

    open spec fn next_source(source: &Mixed) -> Option<&Mixed> {
        None
    }

    open spec fn source_rank(source: &Mixed) -> nat {
        0
    }

    fn display<W: Sink>(&self, f: &mut W) -> (result: Result<(), FormatError>) {
        match self {
            Mixed::Text(text) => f.write_str(text.as_str()),
            Mixed::Number(number) => f.write_str(decimal_text(*number).as_str()),
        }
    }

    fn debug<W: Sink>(&self, f: &mut W) -> (result: Result<(), FormatError>) {
        match self {
            Mixed::Text(text) => f.write_str(debug_str(text.as_str()).as_str()),
            Mixed::Number(number) => f.write_str(decimal_text(*number).as_str()),
        }
    }

    fn source(&self) -> (source: Option<&Mixed>) {
        None
    }

    fn backtrace(&self) -> (backtrace: Option<&Backtrace>) {
        None
    }

    fn display_source<W: Sink>(source: &Mixed, f: &mut W) -> (result: Result<(), FormatError>) {
        source.display(f)
    }

    fn source_after(source: &Mixed) -> (next: Option<&Mixed>) {
        None
    }
}

impl Member<Mixed> for String {
    open spec fn erased(self) -> Mixed {
        Mixed::Text(self)
    }

    open spec fn member(value: Mixed) -> Option<String> {
        match value {
            Mixed::Text(text) => Some(text),
            Mixed::Number(_) => None,
        }
    }

    fn erase(self) -> (value: Mixed) {
        Mixed::Text(self)
    }

    fn take(value: Mixed) -> (taken: Result<String, Mixed>) {
        match value {
            Mixed::Text(text) => Ok(text),
            Mixed::Number(number) => Err(Mixed::Number(number)),
        }
    }

    fn get(value: &Mixed) -> (found: Option<&String>) {
        match value {
            Mixed::Text(text) => Some(text),
            Mixed::Number(_) => None,
        }
    }

    fn get_mut(value: &mut Mixed) -> (found: Option<&mut String>) {
        match value {
            Mixed::Text(text) => Some(text),
            Mixed::Number(_) => None,
        }
    }
}

impl Member<Mixed> for u64 {
    open spec fn erased(self) -> Mixed {
        Mixed::Number(self)
    }

    open spec fn member(value: Mixed) -> Option<u64> {
        match value {
            Mixed::Text(_) => None,
            Mixed::Number(number) => Some(number),
        }
    }

    fn erase(self) -> (value: Mixed) {
        Mixed::Number(self)
    }

    fn take(value: Mixed) -> (taken: Result<u64, Mixed>) {
        match value {
            Mixed::Text(text) => Err(Mixed::Text(text)),
            Mixed::Number(number) => Ok(number),
        }
    }

    fn get(value: &Mixed) -> (found: Option<&u64>) {
        match value {
            Mixed::Text(_) => None,
            Mixed::Number(number) => Some(number),
        }
    }

    fn get_mut(value: &mut Mixed) -> (found: Option<&mut u64>) {
        match value {
            Mixed::Text(_) => None,
            Mixed::Number(number) => Some(number),
        }
    }
}

} // verus!
