use anyhow::format::{FormatError, Sink};
use anyhow::value::{Member, Value};
use anyhow::{
    Backtrace, BacktraceStatus, Cause, DisplayError, Error, ErrorImpl, ErrorObject, MessageError,
    Mixed,
};

/// What can be displayed and debugged without fail.
trait Texts {
    fn display_text(&self) -> String;
    fn debug_text(&self) -> String;
}

impl<V: Value> Texts for Error<V> {
    fn display_text(&self) -> String {
        let mut text = String::new();
        assert_eq!(self.display(&mut text), Ok(()));
        text
    }

    fn debug_text(&self) -> String {
        let mut text = String::new();
        assert_eq!(self.debug(&mut text), Ok(()));
        text
    }
}

impl<V: Value> Texts for ErrorImpl<V> {
    fn display_text(&self) -> String {
        let mut text = String::new();
        assert_eq!(self.display(&mut text), Ok(()));
        text
    }

    fn debug_text(&self) -> String {
        let mut text = String::new();
        assert_eq!(self.debug(&mut text), Ok(()));
        text
    }
}

impl<V: Value> Texts for MessageError<V> {
    fn display_text(&self) -> String {
        let mut text = String::new();
        assert_eq!(self.display(&mut text), Ok(()));
        text
    }

    fn debug_text(&self) -> String {
        let mut text = String::new();
        assert_eq!(self.debug(&mut text), Ok(()));
        text
    }
}

impl<V: Value> Texts for DisplayError<V> {
    fn display_text(&self) -> String {
        let mut text = String::new();
        assert_eq!(self.display(&mut text), Ok(()));
        text
    }

    fn debug_text(&self) -> String {
        let mut text = String::new();
        assert_eq!(self.debug(&mut text), Ok(()));
        text
    }
}

fn cause_text<V: Value>(cause: Cause<'_, V>) -> String {
    let mut text = String::new();
    assert_eq!(cause.display(&mut text), Ok(()));
    text
}

/// The debug form of an object, if it has one.
fn object_debug<V: Value>(object: &ErrorObject<V>) -> Option<String> {
    let mut text = String::new();
    match object.debug(&mut text) {
        Some(result) => {
            assert_eq!(result, Ok(()));
            Some(text)
        }
        None => {
            assert!(text.is_empty());
            None
        }
    }
}

/// A sink that has room for a number of characters, and counts the writes that
/// it gets after it has refused one.
struct Limited {
    text: String,
    room: usize,
    refused: bool,
    late: usize,
}

fn limited(room: usize) -> Limited {
    Limited { text: String::new(), room, refused: false, late: 0 }
}

impl Sink for Limited {
    fn write_str(&mut self, text: &str) -> Result<(), FormatError> {
        if self.refused {
            self.late += 1;
        }
        for character in text.chars() {
            if self.room == 0 {
                self.refused = true;
                return Err(FormatError);
            }
            self.room -= 1;
            self.text.push(character);
        }
        Ok(())
    }
}

/// A lower-level source.
#[derive(Debug)]
struct Fault {
    text: &'static str,
    next: Option<Box<Fault>>,
}

fn fault(texts: &[&'static str]) -> Option<Box<Fault>> {
    match texts.split_first() {
        Some((text, rest)) => Some(Box::new(Fault { text, next: fault(rest) })),
        None => None,
    }
}

#[derive(Debug)]
struct IoError {
    code: u32,
    source: Option<Box<Fault>>,
    backtrace: Option<Backtrace>,
}

fn io_error(code: u32) -> IoError {
    IoError { code, source: None, backtrace: None }
}

#[derive(Debug, PartialEq)]
struct ParseError {
    line: usize,
}

#[derive(Debug, PartialEq)]
struct Note(&'static str);

/// A value that cannot be displayed beyond a first text.
#[derive(Debug, PartialEq)]
struct Broken(&'static str);

#[derive(Debug)]
enum Any {
    Io(IoError),
    Parse(ParseError),
    Note(Note),
    Broken(Broken),
}

impl Value for Any {
    type Source = Fault;

    fn display<W: Sink>(&self, f: &mut W) -> Result<(), FormatError> {
        match self {
            Any::Io(error) => f.write_str(&format!("io error {}", error.code)),
            Any::Parse(error) => f.write_str(&format!("parse error in line {}", error.line)),
            Any::Note(note) => f.write_str(note.0),
            Any::Broken(broken) => {
                f.write_str(broken.0)?;
                Err(FormatError)
            }
        }
    }

    fn debug<W: Sink>(&self, f: &mut W) -> Result<(), FormatError> {
        match self {
            Any::Io(error) => f.write_str(&format!("{:?}", error)),
            Any::Parse(error) => f.write_str(&format!("{:?}", error)),
            Any::Note(note) => f.write_str(&format!("{:?}", note)),
            Any::Broken(broken) => f.write_str(&format!("{:?}", broken)),
        }
    }

    fn source(&self) -> Option<&Fault> {
        match self {
            Any::Io(error) => error.source.as_deref(),
            _ => None,
        }
    }

    fn backtrace(&self) -> Option<&Backtrace> {
        match self {
            Any::Io(error) => error.backtrace.as_ref(),
            _ => None,
        }
    }

    fn display_source<W: Sink>(source: &Fault, f: &mut W) -> Result<(), FormatError> {
        f.write_str(source.text)
    }

    fn source_after(source: &Fault) -> Option<&Fault> {
        source.next.as_deref()
    }
}

impl Member<Any> for IoError {
    fn erase(self) -> Any {
        Any::Io(self)
    }

    fn take(value: Any) -> Result<IoError, Any> {
        match value {
            Any::Io(error) => Ok(error),
            other => Err(other),
        }
    }

    fn get(value: &Any) -> Option<&IoError> {
        match value {
            Any::Io(error) => Some(error),
            _ => None,
        }
    }

    fn get_mut(value: &mut Any) -> Option<&mut IoError> {
        match value {
            Any::Io(error) => Some(error),
            _ => None,
        }
    }
}

impl Member<Any> for ParseError {
    fn erase(self) -> Any {
        Any::Parse(self)
    }

    fn take(value: Any) -> Result<ParseError, Any> {
        match value {
            Any::Parse(error) => Ok(error),
            other => Err(other),
        }
    }

    fn get(value: &Any) -> Option<&ParseError> {
        match value {
            Any::Parse(error) => Some(error),
            _ => None,
        }
    }

    fn get_mut(value: &mut Any) -> Option<&mut ParseError> {
        match value {
            Any::Parse(error) => Some(error),
            _ => None,
        }
    }
}

impl Member<Any> for Note {
    fn erase(self) -> Any {
        Any::Note(self)
    }

    fn take(value: Any) -> Result<Note, Any> {
        match value {
            Any::Note(note) => Ok(note),
            other => Err(other),
        }
    }

    fn get(value: &Any) -> Option<&Note> {
        match value {
            Any::Note(note) => Some(note),
            _ => None,
        }
    }

    fn get_mut(value: &mut Any) -> Option<&mut Note> {
        match value {
            Any::Note(note) => Some(note),
            _ => None,
        }
    }
}

impl Member<Any> for Broken {
    fn erase(self) -> Any {
        Any::Broken(self)
    }

    fn take(value: Any) -> Result<Broken, Any> {
        match value {
            Any::Broken(broken) => Ok(broken),
            other => Err(other),
        }
    }

    fn get(value: &Any) -> Option<&Broken> {
        match value {
            Any::Broken(broken) => Some(broken),
            _ => None,
        }
    }

    fn get_mut(value: &mut Any) -> Option<&mut Broken> {
        match value {
            Any::Broken(broken) => Some(broken),
            _ => None,
        }
    }
}

fn backtrace(status: BacktraceStatus, text: &str) -> Backtrace {
    Backtrace { status, text: text.to_string() }
}

fn unsupported() -> Option<Backtrace> {
    Some(backtrace(BacktraceStatus::Unsupported, ""))
}

fn chain_texts(error: &Error<Any>) -> Vec<String> {
    let mut texts = Vec::new();
    let mut chain = error.chain();
    while let Some(cause) = chain.next() {
        texts.push(cause_text(cause));
    }
    assert!(chain.next().is_none());
    texts
}

#[test]
fn new_captures_a_backtrace_if_absent() {
    let error: Error<Any> = Error::new(io_error(5));
    assert!(error.find_backtrace().is_some());
    let expected = match std::backtrace::Backtrace::capture().status() {
        std::backtrace::BacktraceStatus::Captured => BacktraceStatus::Captured,
        std::backtrace::BacktraceStatus::Disabled => BacktraceStatus::Disabled,
        _ => BacktraceStatus::Unsupported,
    };
    assert_eq!(error.backtrace().status, expected);
    assert!(!error.backtrace().text.is_empty());
    assert!(matches!(&*error, ErrorObject::Std(Any::Io(inner)) if inner.code == 5));
}

#[test]
fn new_keeps_the_backtrace_of_the_error() {
    let mut inner = io_error(5);
    inner.backtrace = Some(backtrace(BacktraceStatus::Captured, "frames of the error"));
    let error: Error<Any> = Error::new(inner);
    assert_eq!(error.backtrace().text, "frames of the error");
    let boxed: Box<ErrorImpl<Any>> = Box::from(error);
    assert!(boxed.backtrace.is_none());
}

#[test]
fn from_does_what_new_does() {
    let error: Error<Any> = Error::<Any>::from(ParseError { line: 3 });
    assert_eq!(error.display_text(), "parse error in line 3");
    assert!(error.find_backtrace().is_some());
    assert_eq!(error.downcast_ref::<ParseError>(), Some(&ParseError { line: 3 }));
}

#[test]
fn given_backtrace_comes_before_that_of_the_error() {
    let mut inner = io_error(5);
    inner.backtrace = Some(backtrace(BacktraceStatus::Captured, "inner"));
    let given = Some(backtrace(BacktraceStatus::Captured, "given"));
    let error: Error<Any> = Error::from_std(inner, given);
    assert_eq!(error.backtrace().text, "given");
}

#[test]
fn message_without_backtrace_has_none() {
    let error: Error<Any> = Error::from_adhoc(Note("oh no"), None);
    assert!(error.find_backtrace().is_none());
    let error: Error<Any> = Error::from_display(Note("oh no"), None);
    assert!(error.find_backtrace().is_none());
    let error = error.context(Note("wrapped"));
    assert!(error.find_backtrace().is_none());
}

#[test]
fn context_keeps_the_backtrace() {
    let given = Some(backtrace(BacktraceStatus::Captured, "given"));
    let error: Error<Any> = Error::from_adhoc(Note("oh no"), given);
    let error = error.context(Note("one")).context(Note("two"));
    assert_eq!(error.backtrace().text, "given");
}

#[test]
fn from_context_has_the_backtrace_of_the_error() {
    let mut inner = io_error(5);
    inner.backtrace = Some(backtrace(BacktraceStatus::Captured, "inner"));
    let error: Error<Any> = Error::from_context(Note("reading"), inner, None);
    assert_eq!(error.backtrace().text, "inner");
}

#[test]
fn chain_visits_every_cause() {
    let mut inner = io_error(5);
    inner.source = fault(&["disk", "cable"]);
    let error: Error<Any> = Error::from_context(Note("reading"), inner, unsupported());
    let error = error.context(Note("loading")).context(ParseError { line: 7 });
    assert_eq!(
        chain_texts(&error),
        vec!["parse error in line 7", "loading", "reading", "io error 5", "disk", "cable"]
    );
    assert_eq!(cause_text(error.root_cause()), "cable");
    assert!(error.root_cause().source().is_none());
}

#[test]
fn chain_begins_with_the_object() {
    let error: Error<Any> = Error::from_std(io_error(5), unsupported());
    match error.chain().next() {
        Some(Cause::Object(ErrorObject::Std(Any::Io(inner)))) => assert_eq!(inner.code, 5),
        _ => panic!("not the object"),
    }
    assert_eq!(cause_text(error.root_cause()), "io error 5");
}

#[test]
fn context_keeps_the_root_cause() {
    let mut inner = io_error(5);
    inner.source = fault(&["disk"]);
    let error: Error<Any> = Error::from_std(inner, unsupported());
    assert_eq!(cause_text(error.root_cause()), "disk");
    let error = error.context(Note("loading"));
    assert_eq!(cause_text(error.root_cause()), "disk");
    assert_eq!(error.display_text(), "loading");
}

#[test]
fn message_has_no_source() {
    let mut inner = io_error(5);
    inner.source = fault(&["disk"]);
    let error: Error<Any> = Error::from_adhoc(inner, unsupported());
    assert_eq!(chain_texts(&error), vec!["io error 5"]);
    assert!(error.source().is_none());
    let mut inner = io_error(6);
    inner.source = fault(&["disk"]);
    let error: Error<Any> = Error::from_display(inner, unsupported());
    assert_eq!(chain_texts(&error), vec!["io error 6"]);
}

#[test]
fn sources_of_objects() {
    let mut inner = io_error(5);
    inner.source = fault(&["disk"]);
    let error: Error<Any> = Error::from_context(Note("reading"), inner, unsupported());
    let source = error.source();
    assert!(matches!(source, Some(Cause::Value(Any::Io(_)))));
    assert!(matches!(source.and_then(|cause| cause.source()), Some(Cause::Source(f)) if f.text == "disk"));
    let error = error.context(Note("loading"));
    assert!(matches!(error.source(), Some(Cause::Object(ErrorObject::Context(_)))));
}

#[test]
fn downcast_undoes_creation() {
    let error: Error<Any> = Error::new(ParseError { line: 3 });
    assert!(error.is::<ParseError>());
    assert!(!error.is::<Note>());
    assert_eq!(error.downcast::<ParseError>().ok(), Some(ParseError { line: 3 }));
    let error: Error<Any> = Error::from_adhoc(Note("a"), unsupported());
    assert_eq!(error.downcast::<Note>().ok(), Some(Note("a")));
    let error: Error<Any> = Error::from_display(Note("b"), unsupported());
    assert_eq!(error.downcast::<Note>().ok(), Some(Note("b")));
}

#[test]
fn failed_downcast_gives_the_error_back() {
    let mut inner = io_error(5);
    inner.source = fault(&["disk"]);
    let given = Some(backtrace(BacktraceStatus::Captured, "given"));
    let error: Error<Any> = Error::from_context(Note("reading"), inner, given);
    let error = error.context(Note("loading"));
    assert!(error.downcast_ref::<ParseError>().is_none());
    let error = match error.downcast::<ParseError>() {
        Ok(_) => panic!("no such value"),
        Err(error) => error,
    };
    assert_eq!(chain_texts(&error), vec!["loading", "reading", "io error 5", "disk"]);
    assert_eq!(error.backtrace().text, "given");
    for message in [true, false] {
        let error: Error<Any> = if message {
            Error::from_adhoc(Note("m"), unsupported())
        } else {
            Error::from_display(Note("m"), unsupported())
        };
        match error.downcast::<ParseError>() {
            Ok(_) => panic!("no such value"),
            Err(error) => assert_eq!(matches!(&*error, ErrorObject::Message(_)), message),
        }
    }
}

#[test]
fn downcast_takes_the_outermost_value() {
    let error: Error<Any> = Error::from_context(Note("inner"), ParseError { line: 1 }, unsupported());
    let error = error.context(Note("outer"));
    assert_eq!(error.downcast_ref::<Note>(), Some(&Note("outer")));
    assert_eq!(error.downcast_ref::<ParseError>(), Some(&ParseError { line: 1 }));
    assert_eq!(error.downcast::<Note>().ok(), Some(Note("outer")));
}

#[test]
fn downcast_reaches_under_contexts() {
    let error: Error<Any> = Error::from_context(Note("inner"), ParseError { line: 1 }, unsupported());
    let error = error.context(io_error(2)).context(io_error(3));
    assert_eq!(error.downcast_ref::<Note>(), Some(&Note("inner")));
    assert_eq!(error.downcast::<ParseError>().ok(), Some(ParseError { line: 1 }));
    let error: Error<Any> = Error::from_context(Note("inner"), ParseError { line: 1 }, unsupported());
    let error = error.context(io_error(2));
    assert_eq!(error.downcast::<Note>().ok(), Some(Note("inner")));
}

#[test]
fn created_context_comes_before_an_error_of_its_type() {
    let error: Error<Any> = Error::from_context(Note("context"), Note("error"), unsupported());
    assert_eq!(error.downcast_ref::<Note>(), Some(&Note("context")));
    assert_eq!(error.downcast::<Note>().ok(), Some(Note("context")));
}

#[test]
fn downcast_mut_changes_one_value() {
    let error: Error<Any> = Error::from_context(Note("inner"), ParseError { line: 1 }, unsupported());
    let mut error = error.context(io_error(2));
    assert!(error.downcast_mut::<Fresh>().is_none());
    if let Some(found) = error.downcast_mut::<ParseError>() {
        found.line = 9;
    }
    assert_eq!(error.downcast_ref::<ParseError>(), Some(&ParseError { line: 9 }));
    assert_eq!(chain_texts(&error), vec!["io error 2", "inner", "parse error in line 9"]);
    if let Some(found) = error.downcast_mut::<Note>() {
        found.0 = "changed";
    }
    if let Some(found) = error.downcast_mut::<IoError>() {
        found.code = 4;
    }
    assert_eq!(chain_texts(&error), vec!["io error 4", "changed", "parse error in line 9"]);
}

/// A type that no value holds.
struct Fresh;

impl Member<Any> for Fresh {
    fn erase(self) -> Any {
        unreachable!()
    }

    fn take(value: Any) -> Result<Fresh, Any> {
        Err(value)
    }

    fn get(_value: &Any) -> Option<&Fresh> {
        None
    }

    fn get_mut(_value: &mut Any) -> Option<&mut Fresh> {
        None
    }
}

#[test]
fn downcast_mut_reaches_every_object() {
    let mut errors: Vec<Error<Any>> = vec![
        Error::from_std(ParseError { line: 1 }, unsupported()),
        Error::from_adhoc(ParseError { line: 1 }, unsupported()),
        Error::from_display(ParseError { line: 1 }, unsupported()),
        Error::from_context(ParseError { line: 1 }, io_error(1), unsupported()),
        Error::from_context(Note("n"), ParseError { line: 1 }, unsupported()),
    ];
    for error in errors.iter_mut() {
        match error.downcast_mut::<ParseError>() {
            Some(found) => found.line = 2,
            None => panic!("not found"),
        }
        assert_eq!(error.downcast_ref::<ParseError>(), Some(&ParseError { line: 2 }));
    }
}

#[test]
fn deref_gives_the_object() {
    let mut error: Error<Any> = Error::from_std(ParseError { line: 1 }, unsupported());
    match &mut *error {
        ErrorObject::Std(Any::Parse(inner)) => inner.line = 8,
        _ => panic!("another object"),
    }
    assert_eq!(error.display_text(), "parse error in line 8");
    assert!(ErrorObject::backtrace(&error).is_none());
}

#[test]
fn boxed_error_is_the_same_error() {
    let error: Error<Any> = Error::from_std(ParseError { line: 1 }, unsupported());
    let error = error.context(Note("loading"));
    let report = error.debug_text();
    let mut boxed: Box<ErrorImpl<Any>> = Box::from(error);
    assert_eq!(boxed.display_text(), "loading");
    assert!(matches!(boxed.source(), Some(Cause::Object(ErrorObject::Std(_)))));
    let mut text = String::from("> ");
    assert_eq!(boxed.debug(&mut text), Ok(()));
    assert_eq!(text, format!("> {}", report));
    *boxed.error_mut() = ErrorObject::Message(MessageError(Any::Note(Note("other"))));
    assert_eq!(boxed.display_text(), "other");
}

#[test]
fn report_without_causes() {
    let error: Error<Any> = Error::from_adhoc(Note("oh no"), unsupported());
    assert_eq!(error.debug_text(), "oh no\n");
}

#[test]
fn report_with_one_cause_has_no_number() {
    let error: Error<Any> = Error::from_adhoc(Note("oh no"), unsupported());
    let error = error.context(Note("loading"));
    assert_eq!(error.debug_text(), "loading\n\nCaused by:\n    oh no\n");
}

#[test]
fn report_numbers_causes_from_zero() {
    let mut inner = io_error(5);
    inner.source = fault(&["disk"]);
    let error: Error<Any> = Error::from_std(inner, unsupported());
    let error = error.context(Note("loading"));
    assert_eq!(error.debug_text(), "loading\n\nCaused by:\n    0: io error 5\n    1: disk\n");
}

#[test]
fn report_of_a_message_without_backtrace() {
    let error: Error<String> = Error::from_adhoc(String::from("oh no!"), None);
    assert_eq!(error.debug_text(), "oh no!\n");
}

#[test]
fn report_of_one_context_without_backtrace() {
    let error: Error<String> = Error::from_adhoc(String::from("root"), None);
    let error = error.context(String::from("top"));
    assert_eq!(error.debug_text(), "top\n\nCaused by:\n    root\n");
}

#[test]
fn report_of_two_contexts_without_backtrace() {
    let error: Error<String> = Error::from_adhoc(String::from("root"), None);
    let error = error.context(String::from("mid")).context(String::from("top"));
    let boxed: Box<ErrorImpl<String>> = Box::from(error);
    let mut text = String::new();
    assert_eq!(boxed.debug(&mut text), Ok(()));
    assert_eq!(text, "top\n\nCaused by:\n    0: mid\n    1: root\n");
}

#[test]
fn report_is_made_of_displays() {
    let error: Error<Any> = Error::from_std(ParseError { line: 3 }, None);
    let other: Error<Any> = Error::from_display(Note("parse error in line 3"), None);
    assert_eq!(error.debug_text(), other.debug_text());
    let error = error.context(Note("io error 4"));
    let other = other.context(io_error(4));
    assert_eq!(error.debug_text(), other.debug_text());
    assert!(error.debug_text().starts_with(&format!("{}\n", error.display_text())));
}

#[test]
fn report_counts_past_two_digits() {
    let mut error: Error<Any> = Error::from_adhoc(ParseError { line: 0 }, unsupported());
    let mut line = 0;
    while line < 1001 {
        line += 1;
        error = error.context(ParseError { line });
    }
    let mut expected = String::from("parse error in line 1001\n\nCaused by:\n");
    for n in 0..1001 {
        expected.push_str(&format!("    {}: parse error in line {}\n", n, 1000 - n));
    }
    assert_eq!(error.debug_text(), expected);
}

#[test]
fn report_shows_a_captured_backtrace() {
    let given = Some(backtrace(BacktraceStatus::Captured, "   0: main\n   1: start"));
    let error: Error<Any> = Error::from_adhoc(Note("oh no"), given);
    let error = error.context(Note("loading"));
    assert_eq!(
        error.debug_text(),
        "loading\n\nCaused by:\n    oh no\n\n   0: main\n   1: start\n"
    );
}

#[test]
fn report_says_how_to_enable_backtraces() {
    let given = Some(backtrace(BacktraceStatus::Disabled, "disabled backtrace"));
    let error: Error<Any> = Error::from_adhoc(Note("oh no"), given);
    assert_eq!(
        error.debug_text(),
        "oh no\n\nBacktrace disabled; run with RUST_LIB_BACKTRACE=1 environment variable to display a backtrace\n"
    );
}

/// The code of the first io error in the chain of an error.
fn underlying_code(error: &Error<Any>) -> Option<u32> {
    let mut chain = error.chain();
    while let Some(cause) = chain.next() {
        let found = match cause {
            Cause::Object(ErrorObject::Std(value)) => IoError::get(value),
            Cause::Value(value) => IoError::get(value),
            _ => None,
        };
        if let Some(inner) = found {
            return Some(inner.code);
        }
    }
    None
}

#[test]
fn chain_leads_to_the_underlying_error() {
    let error: Error<Any> = Error::new(io_error(13));
    assert_eq!(underlying_code(&error.context(Note("reading")).context(Note("loading"))), Some(13));
    let error: Error<Any> = Error::from_context(Note("reading"), io_error(14), unsupported());
    assert_eq!(underlying_code(&error), Some(14));
    let error: Error<Any> = Error::new(ParseError { line: 1 });
    assert_eq!(underlying_code(&error), None);
}

#[test]
fn context_can_depend_on_the_error() {
    let parsed: Result<(), ParseError> = Err(ParseError { line: 6 });
    let result: Result<(), Error<String>> = parsed.map_err(|error| {
        let context = format!("only the first {} lines of {} are valid", error.line, "a.txt");
        Error::new(String::from("unexpected end")).context(context)
    });
    match result {
        Ok(()) => panic!("an error was expected"),
        Err(error) => {
            assert_eq!(error.display_text(), "only the first 6 lines of a.txt are valid");
            assert_eq!(cause_text(error.root_cause()), "unexpected end");
        }
    }
}

#[test]
fn changing_an_inner_value_keeps_the_display() {
    let error: Error<Any> = Error::new(ParseError { line: 1 });
    let mut error = error.context(Note("loading"));
    if let Some(found) = error.downcast_mut::<ParseError>() {
        found.line = 2;
    }
    assert_eq!(error.display_text(), "loading");
    assert_eq!(cause_text(error.root_cause()), "parse error in line 2");
    assert!(error.find_backtrace().is_some());
}

#[test]
fn losing_the_carried_backtrace_leaves_none() {
    let mut inner = io_error(5);
    inner.backtrace = Some(backtrace(BacktraceStatus::Captured, "inner"));
    let error: Error<Any> = Error::new(inner);
    let mut error = error.context(Note("loading"));
    if let Some(found) = error.downcast_mut::<IoError>() {
        found.backtrace = None;
    }
    assert!(error.find_backtrace().is_none());
}

#[test]
fn messages_as_errors() {
    let message = MessageError(Any::Parse(ParseError { line: 4 }));
    assert_eq!(message.display_text(), "parse error in line 4");
    assert_eq!(message.debug_text(), "ParseError { line: 4 }");
    assert!(message.source().is_none());
    assert!(message.backtrace().is_none());
    let message = DisplayError(Any::Parse(ParseError { line: 4 }));
    assert_eq!(message.display_text(), "parse error in line 4");
    assert_eq!(message.debug_text(), "parse error in line 4");
    assert!(message.source().is_none());
    assert!(message.backtrace().is_none());
}

#[test]
fn debug_forms_of_objects() {
    let error: Error<Any> = Error::from_std(ParseError { line: 4 }, None);
    assert_eq!(object_debug(&error), Some(String::from("ParseError { line: 4 }")));
    let error: Error<Any> = Error::from_adhoc(ParseError { line: 4 }, None);
    assert_eq!(object_debug(&error), Some(String::from("ParseError { line: 4 }")));
    let error: Error<Any> = Error::from_display(ParseError { line: 4 }, None);
    assert_eq!(object_debug(&error), Some(String::from("parse error in line 4")));
    assert_eq!(object_debug(&error.context(Note("loading"))), None);
    let error: Error<Any> = Error::from_context(Note("reading"), io_error(1), None);
    assert_eq!(object_debug(&error), None);
}

#[test]
fn errors_are_thread_safe() {
    fn thread_safe<T: Send + Sync + 'static>() {}
    thread_safe::<Error<Any>>();
    thread_safe::<Error<String>>();
}

#[test]
fn strings_are_errors() {
    let error: Error<String> = Error::new(String::from("oh no"));
    let mut error = error.context(String::from("loading"));
    assert_eq!(error.display_text(), "loading");
    assert_eq!(cause_text(error.root_cause()), "oh no");
    match error.downcast_mut::<String>() {
        Some(context) => context.push_str(" twice"),
        None => panic!("not found"),
    }
    assert_eq!(error.downcast::<String>().ok(), Some(String::from("loading twice")));
}

#[test]
fn debug_form_of_a_string_is_quoted() {
    let message = MessageError(String::from("say \"hi\"\n"));
    assert_eq!(message.debug_text(), "\"say \\\"hi\\\"\\n\"");
    assert_eq!(message.display_text(), "say \"hi\"\n");
}

#[test]
fn sources_of_strings_end() {
    let mut text = String::new();
    assert_eq!(String::display_source(&String::from("a"), &mut text), Ok(()));
    assert_eq!(text, "a");
    assert!(String::source_after(&String::from("a")).is_none());
    assert!(String::from("a").source().is_none());
    assert!(Value::backtrace(&String::from("a")).is_none());
}

#[test]
fn report_ends_where_an_error_cannot_be_displayed() {
    let error: Error<Any> = Error::from_std(ParseError { line: 1 }, None);
    let error = error.context(Broken("bro")).context(Note("mid")).context(Note("top"));
    let mut text = String::from("> ");
    assert_eq!(error.debug(&mut text), Err(FormatError));
    assert_eq!(text, "> top\n\nCaused by:\n    0: mid\n    1: bro");
    let error: Error<Any> = Error::from_adhoc(Broken("bro"), None);
    let mut text = String::new();
    assert_eq!(error.debug(&mut text), Err(FormatError));
    assert_eq!(text, "bro");
    let mut text = String::new();
    assert_eq!(error.display(&mut text), Err(FormatError));
    assert_eq!(text, "bro");
    let error = error.context(Note("top"));
    let mut text = String::new();
    assert_eq!(error.debug(&mut text), Err(FormatError));
    assert_eq!(text, "top\n\nCaused by:\n    bro");
    let mut text = String::new();
    assert_eq!(error.display(&mut text), Ok(()));
    assert_eq!(text, "top");
}

#[test]
fn report_ends_where_the_sink_refuses() {
    let mut inner = io_error(5);
    inner.source = fault(&["disk", "cable"]);
    let given = Some(backtrace(BacktraceStatus::Captured, "0: main"));
    let error: Error<Any> = Error::from_std(inner, given);
    let error = error.context(Note("loading"));
    let full = error.debug_text();
    assert_eq!(
        full,
        "loading\n\nCaused by:\n    0: io error 5\n    1: disk\n    2: cable\n\n0: main\n"
    );
    for room in 0..full.len() {
        let mut sink = limited(room);
        assert_eq!(error.debug(&mut sink), Err(FormatError));
        assert_eq!(sink.text, full[..room]);
        assert_eq!(sink.late, 0);
    }
    let mut sink = limited(full.len());
    assert_eq!(error.debug(&mut sink), Ok(()));
    assert_eq!(sink.text, full);
}

#[test]
fn report_without_backtrace_needs_no_room_for_it() {
    for status in [BacktraceStatus::Unsupported, BacktraceStatus::Disabled] {
        let error: Error<Any> = Error::from_adhoc(Note("oh no"), Some(backtrace(status, "")));
        let mut sink = limited(6);
        let expected = match status {
            BacktraceStatus::Disabled => Err(FormatError),
            _ => Ok(()),
        };
        assert_eq!(error.debug(&mut sink), expected);
        assert_eq!(sink.text, "oh no\n");
    }
}

#[test]
fn debug_form_ends_where_a_display_message_cannot_be_displayed() {
    let message = DisplayError(Any::Broken(Broken("bro")));
    let mut text = String::new();
    assert_eq!(message.debug(&mut text), Err(FormatError));
    assert_eq!(text, "bro");
    let message = MessageError(Any::Broken(Broken("bro")));
    assert_eq!(message.debug_text(), "Broken(\"bro\")");
}

#[test]
fn text_and_numbers_as_values() {
    let error: Error<Mixed> = Error::from_adhoc(404u64, None);
    let error = error.context(String::from("fetching")).context(18446744073709551615u64);
    assert_eq!(
        error.debug_text(),
        "18446744073709551615\n\nCaused by:\n    0: fetching\n    1: 404\n"
    );
    assert_eq!(error.downcast_ref::<u64>(), Some(&u64::MAX));
    assert_eq!(error.downcast::<String>().ok(), Some(String::from("fetching")));
    let mut error: Error<Mixed> = Error::from_display(10u64, None);
    assert!(!error.is::<String>());
    assert!(error.downcast_mut::<String>().is_none());
    let mut error = match error.downcast::<String>() {
        Ok(_) => panic!("no such value"),
        Err(error) => error,
    };
    if let Some(number) = error.downcast_mut::<u64>() {
        *number += 1;
    }
    assert_eq!(error.display_text(), "11");
    assert_eq!(object_debug(&error), Some(String::from("11")));
    let mut error: Error<Mixed> = Error::new(String::from("a\"b"));
    assert_eq!(object_debug(&error), Some(String::from("\"a\\\"b\"")));
    assert!(error.downcast_mut::<u64>().is_none());
    if let Some(text) = error.downcast_mut::<String>() {
        text.push('c');
    }
    assert_eq!(error.downcast::<String>().ok(), Some(String::from("a\"bc")));
}

#[test]
fn sources_of_mixed_values_end() {
    let mut text = String::new();
    assert_eq!(Mixed::display_source(&Mixed::Number(7), &mut text), Ok(()));
    assert_eq!(text, "7");
    assert!(Mixed::source_after(&Mixed::Number(7)).is_none());
    assert!(Mixed::Number(7).source().is_none());
    assert!(Mixed::Number(7).backtrace().is_none());
}
