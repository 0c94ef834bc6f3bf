//! Where an error came from.
use crate::value::Value;
use vstd::prelude::*;

verus! {

/// Whether a backtrace was captured.
#[derive(Clone, Copy, Debug, PartialEq, Eq, Structural)]
pub enum BacktraceStatus {
    /// Capturing a backtrace is not supported on this platform.
    Unsupported,
    /// Capturing a backtrace has been disabled through the environment.
    Disabled,
    /// A backtrace has been captured.
    Captured,
}

/// A backtrace, with its frames rendered as text.
#[derive(Debug)]
pub struct Backtrace {
    pub status: BacktraceStatus,
    pub text: String,
}

/// The standard library's backtrace, carried from its capture to its rendering.
#[verifier::external_type_specification]
#[verifier::external_body]
pub struct ExStdBacktrace(std::backtrace::Backtrace);

/// Calls `std::backtrace::Backtrace::capture`. Nothing is claimed of the
/// result: what is captured rests on the environment and on the call stack.
#[verifier::external_body]
fn std_capture() -> (captured: std::backtrace::Backtrace) {
    std::backtrace::Backtrace::capture()
}

/// Calls `std::backtrace::Backtrace::status`. Nothing is claimed of the
/// result: the backtrace that it is read from is opaque. A status that this
/// library has no name for counts as unsupported.
#[verifier::external_body]
fn std_status(captured: &std::backtrace::Backtrace) -> (status: BacktraceStatus) {
    match captured.status() {
        std::backtrace::BacktraceStatus::Captured => BacktraceStatus::Captured,
        std::backtrace::BacktraceStatus::Disabled => BacktraceStatus::Disabled,
        std::backtrace::BacktraceStatus::Unsupported => BacktraceStatus::Unsupported,
        _ => BacktraceStatus::Unsupported,
    }
}

/// Renders a backtrace of the standard library with its `Display`. Nothing is
/// claimed of the result: it rests on the debug information at hand.
#[verifier::external_body]
fn std_text(captured: &std::backtrace::Backtrace) -> (text: String) {
    format!("{}", captured)
}

impl Backtrace {
    /// Captures a backtrace of the caller. Its status and its text are up to
    /// the environment.
    pub fn capture() -> (backtrace: Backtrace) {
        let captured = std_capture();
        Backtrace { status: std_status(&captured), text: std_text(&captured) }
    }
}

/// A backtrace for an error that does not carry one itself, so that every
/// error has a backtrace.
pub fn backtrace_if_absent<V: Value>(error: &V) -> (backtrace: Option<Backtrace>)
    ensures
        backtrace is Some <==> error.backtrace_of() is None,
{
    match error.backtrace() {
        Some(_) => None,
        None => Some(Backtrace::capture()),
    }
}

} // verus!
