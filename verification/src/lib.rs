//! Errors of any type, with context.
//!
//! An `Error` is created from an error value, or from a message, and can be
//! wrapped with contexts that say what was being done when it occurred. It
//! gives access to the chain of its causes, to its backtrace, and to the values
//! it was made of under their own types.
pub mod backtrace;
pub mod cases;
pub mod chain;
pub mod decimal;
pub mod error;
pub mod format;
pub mod laws;
pub mod mixed;
pub mod report;
pub mod text;
pub mod value;

pub use backtrace::{Backtrace, BacktraceStatus};
pub use chain::{Cause, Chain};
pub use error::{ContextError, DisplayError, Error, ErrorImpl, ErrorObject, MessageError};
pub use format::{FormatError, Sink};
pub use mixed::Mixed;
pub use value::{Member, Value};
