//! What each operation does, case by case: in terms of the values that an error
//! holds, of their own texts, sources and backtraces, and of plain text.
use crate::backtrace::{Backtrace, BacktraceStatus};
use crate::chain::Cause;
use crate::decimal::decimal;
use crate::error::{
    with_context, ContextError, DisplayError, Error, ErrorImpl, ErrorObject, MessageError,
};
use crate::format::{plain, wrote, Shown, Sink};
use crate::laws::chain_follows_sources;
use crate::mixed::Mixed;
use crate::report::{cause_lines, causes_section, texts};
use crate::text::quoted;
use crate::value::{
    first_index, first_member, is_first, kept, lemma_first_index_prepend, lemma_no_first_index,
    Member, Value,
};
use vstd::prelude::*;
use vstd::std_specs::convert::FromSpec;

verus! {

// What an error is made of.

/// An error that is wrapped with a context holds that context and the error as
/// it was, and no backtrace beside.
pub proof fn wrapped_error_holds_context_and_error<V: Value>(error: Error<V>, context: V)
    ensures
        with_context(error, context).backtrace is None,
        with_context(error, context).object == ErrorObject::ContextChain(
            ContextError { context, error },
        ),
{
}

/// Boxing an error keeps it whole, and with it its object, its backtrace, its
/// chain, its text and its report.
pub proof fn boxing_keeps_the_error<V: Value>(error: Error<V>)
    ensures
        <Box<ErrorImpl<V>> as FromSpec<Error<V>>>::obeys_from_spec(),
        ({
            let boxed = *<Box<ErrorImpl<V>> as FromSpec<Error<V>>>::from_spec(error);
            &&& boxed == error@
            &&& boxed.object == error@.object
            &&& boxed.backtrace == error@.backtrace
            &&& boxed.causes() == error@.causes()
            &&& boxed.object.displayed() == error@.object.displayed()
            &&& boxed.debugged() == error@.debugged()
            &&& boxed.backtrace_of() == error@.backtrace_of()
        }),
{
}

/// A member that is kept comes back out of the value it was erased to.
pub proof fn kept_members_come_back<V: Value, E: Member<V>>(member: E)
    ensures
        kept(member) <==> E::member(member.erased()) == Some(member),
{
}

// Display and debug forms.

/// An error that was created from an error or from a message displays exactly
/// as that value does. One with a context displays exactly as the context does,
/// whatever it was attached to.
pub proof fn error_displays_as_its_outermost_value<V: Value>(
    value: V,
    other: V,
    error: Error<V>,
)
    ensures
        ErrorObject::Std(value).displayed() == value.displayed(),
        ErrorObject::Message(MessageError(value)).displayed() == value.displayed(),
        ErrorObject::Display(DisplayError(value)).displayed() == value.displayed(),
        ErrorObject::Context(ContextError { context: value, error: other }).displayed()
            == value.displayed(),
        ErrorObject::ContextChain(ContextError { context: value, error }).displayed()
            == value.displayed(),
{
}

/// Each error of a chain displays as what it refers to.
pub proof fn cause_displays_as_what_it_refers_to<'a, V: Value>(
    object: &'a ErrorObject<V>,
    value: &'a V,
    source: &'a V::Source,
)
    ensures
        Cause::Object(object).displayed() == object.displayed(),
        Cause::Value(value).displayed() == value.displayed(),
        Cause::<'a, V>::Source(source).displayed() == V::source_displayed(source),
{
}

/// The debug form of an error or of a message is that of the value, and for a
/// message that can only be displayed it is the displayed text. A context has
/// none.
pub proof fn error_debugs_as_its_value<V: Value>(value: V, other: V, error: Error<V>)
    ensures
        ErrorObject::Std(value).debugged() == Some(value.debugged()),
        ErrorObject::Message(MessageError(value)).debugged() == Some(value.debugged()),
        ErrorObject::Display(DisplayError(value)).debugged() == Some(value.displayed()),
        ErrorObject::Context(ContextError { context: value, error: other }).debugged() is None,
        ErrorObject::ContextChain(ContextError { context: value, error }).debugged() is None,
{
}

// Backtraces.

/// The backtrace that an error was made with is its backtrace, whatever kind of
/// object it holds.
pub proof fn given_backtrace_is_the_backtrace<V: Value>(
    backtrace: Backtrace,
    object: ErrorObject<V>,
)
    ensures
        (ErrorImpl { backtrace: Some(backtrace), object }).backtrace_of() == Some(&backtrace),
{
}

/// The backtrace of an error that was made without one is that of the error
/// inside: none for a message, the one that an error of its own right carries,
/// with a context or without, and the backtrace of the wrapped error, however
/// that one came by it.
pub proof fn backtrace_comes_from_inside<V: Value>(value: V, context: V, error: Error<V>)
    ensures
        (ErrorImpl { backtrace: None, object: ErrorObject::Std(value) }).backtrace_of()
            == value.backtrace_of(),
        (ErrorImpl {
            backtrace: None,
            object: ErrorObject::Message(MessageError(value)),
        }).backtrace_of() is None,
        (ErrorImpl {
            backtrace: None,
            object: ErrorObject::Display(DisplayError(value)),
        }).backtrace_of() is None,
        (ErrorImpl {
            backtrace: None,
            object: ErrorObject::Context(ContextError { context, error: value }),
        }).backtrace_of() == value.backtrace_of(),
        (ErrorImpl {
            backtrace: None,
            object: ErrorObject::ContextChain(ContextError { context, error }),
        }).backtrace_of() == error@.backtrace_of(),
{
}

/// What an object provides itself is the backtrace of an error that was made
/// from it without one.
pub proof fn object_provides_what_an_error_lacks<V: Value>(object: ErrorObject<V>)
    ensures
        object.backtrace_of() == (ErrorImpl { backtrace: None, object }).backtrace_of(),
{
}

// Sources and chains.

/// The source of an error is the one that the error itself names: the source of
/// an error of its own right is what that error says, that of a context is the
/// error it was attached to, and a message has none.
pub proof fn source_is_what_the_error_names<V: Value>(value: V, context: V, error: Error<V>)
    ensures
        value.source_of() is None ==> ErrorObject::Std(value).source_of() is None,
        value.source_of() matches Some(source) ==> ErrorObject::Std(value).source_of() == Some(
            Cause::<V>::Source(source),
        ),
        ErrorObject::Message(MessageError(value)).source_of() is None,
        ErrorObject::Display(DisplayError(value)).source_of() is None,
        ErrorObject::Context(ContextError { context, error: value }).source_of() == Some(
            Cause::<V>::Value(&value),
        ),
        ErrorObject::ContextChain(ContextError { context, error }).source_of() == Some(
            Cause::<V>::Object(&error@.object),
        ),
{
}

/// A chain goes on from an object to the source of the object, from an error of
/// its own right to the source that it names, and from a source to the source
/// that it names, as long as that is nearer to the end.
pub proof fn cause_leads_to_the_source_it_names<'a, V: Value>(
    object: &'a ErrorObject<V>,
    value: &'a V,
    source: &'a V::Source,
)
    ensures
        Cause::Object(object).source_of() == object.source_of(),
        value.source_of() is None ==> Cause::Value(value).source_of() is None,
        value.source_of() matches Some(below) ==> Cause::Value(value).source_of() == Some(
            Cause::<'a, V>::Source(below),
        ),
        V::next_source(source) is None ==> Cause::<'a, V>::Source(source).source_of() is None,
        V::next_source(source) matches Some(below) ==> (V::source_rank(below) < V::source_rank(
            source,
        ) ==> Cause::<'a, V>::Source(source).source_of() == Some(Cause::<'a, V>::Source(below))),
{
}

/// The chain of an error begins with its object. After each error comes the
/// source that this error names, and the chain does not end before one that
/// names none.
pub proof fn chain_visits_every_named_source<V: Value>(error: ErrorImpl<V>)
    ensures
        error.causes().len() > 0,
        error.causes()[0] == Cause::Object(&error.object),
        forall|i: int|
            0 <= i < error.causes().len() - 1 ==> match #[trigger] error.causes()[i] {
                Cause::Object(object) => match object {
                    ErrorObject::Std(value) => value.source_of() is Some
                        && error.causes()[i + 1] == Cause::<V>::Source(value.source_of()->0),
                    ErrorObject::Message(_) => false,
                    ErrorObject::Display(_) => false,
                    ErrorObject::Context(layer) => error.causes()[i + 1] == Cause::<V>::Value(
                        &layer.error,
                    ),
                    ErrorObject::ContextChain(layer) => error.causes()[i + 1]
                        == Cause::<V>::Object(&layer.error@.object),
                },
                Cause::Value(value) => value.source_of() is Some && error.causes()[i + 1]
                    == Cause::<V>::Source(value.source_of()->0),
                Cause::Source(source) => V::next_source(source) is Some && error.causes()[i + 1]
                    == Cause::<V>::Source(V::next_source(source)->0),
            },
        match error.causes().last() {
            Cause::Object(object) => match object {
                ErrorObject::Std(value) => value.source_of() is None,
                ErrorObject::Message(_) => true,
                ErrorObject::Display(_) => true,
                ErrorObject::Context(_) => false,
                ErrorObject::ContextChain(_) => false,
            },
            Cause::Value(value) => value.source_of() is None,
            Cause::Source(source) => V::next_source(source) matches Some(below)
                ==> V::source_rank(below) >= V::source_rank(source),
        },
{
    chain_follows_sources(Cause::Object(&error.object));
    assert forall|i: int| 0 <= i < error.causes().len() - 1 implies (
    #[trigger] error.causes()[i]).source_of() == Some(error.causes()[i + 1]) by {
        assert(Cause::Object(&error.object).chain()[i].source_of() == Some(
            Cause::Object(&error.object).chain()[i + 1],
        ));
    }
}

/// Where ranks fall from each source to the next, as they do for every source
/// that can be asked for the next one, the last error of a chain names no
/// source.
pub proof fn root_cause_names_no_source<V: Value>(error: ErrorImpl<V>)
    requires
        forall|source: &V::Source|
            (#[trigger] V::next_source(source)) matches Some(below) ==> V::source_rank(below)
                < V::source_rank(source),
    ensures
        match error.causes().last() {
            Cause::Object(object) => match object {
                ErrorObject::Std(value) => value.source_of() is None,
                ErrorObject::Message(_) => true,
                ErrorObject::Display(_) => true,
                ErrorObject::Context(_) => false,
                ErrorObject::ContextChain(_) => false,
            },
            Cause::Value(value) => value.source_of() is None,
            Cause::Source(source) => V::next_source(source) is None,
        },
{
    chain_visits_every_named_source(error);
}

// Downcasts.

/// A downcast finds what the outermost value holds of the type, and looks
/// further in only where that holds none: from a context into the error it was
/// attached to, and no further than that where the error is one of its own
/// right.
pub proof fn downcast_looks_from_the_outside_in<V: Value, E: Member<V>>(
    value: V,
    context: V,
    error: Error<V>,
)
    ensures
        first_member::<V, E>(ErrorObject::Std(value).values()) == E::member(value),
        first_member::<V, E>(ErrorObject::Message(MessageError(value)).values()) == E::member(
            value,
        ),
        first_member::<V, E>(ErrorObject::Display(DisplayError(value)).values()) == E::member(
            value,
        ),
        first_member::<V, E>(
            ErrorObject::Context(ContextError { context, error: value }).values(),
        ) == (if E::member(context) is Some {
            E::member(context)
        } else {
            E::member(value)
        }),
        first_member::<V, E>(ErrorObject::ContextChain(ContextError { context, error }).values())
            == (if E::member(context) is Some {
            E::member(context)
        } else {
            first_member::<V, E>(error@.object.values())
        }),
{
    let none = Seq::<V>::empty();
    lemma_no_first_index::<V, E>(none);
    lemma_first_index_prepend::<V, E>(value, none);
    lemma_first_index_prepend::<V, E>(context, seq![value]);
    assert(seq![value] =~= seq![value] + none);
    assert(seq![context, value] =~= seq![context] + seq![value]);
    let inner = error@.object.values();
    lemma_first_index_prepend::<V, E>(context, inner);
    if first_index::<V, E>(inner) is Some {
        let i = choose|i: int| is_first::<V, E>(inner, i);
        assert((seq![context] + inner)[i + 1] == inner[i]);
    }
}

/// There is a place where a downcast finds a value exactly if it finds one, and
/// that is exactly if some value of the error holds one of the type.
pub proof fn downcast_finds_what_is_there<V: Value, E: Member<V>>(object: ErrorObject<V>)
    ensures
        first_index::<V, E>(object.values()) is Some <==> first_member::<V, E>(
            object.values(),
        ) is Some,
        first_index::<V, E>(object.values()) is Some <==> exists|i: int|
            0 <= i < object.values().len() && E::member(#[trigger] object.values()[i]) is Some,
{
    lemma_no_first_index::<V, E>(object.values());
    if first_index::<V, E>(object.values()) is Some {
        let i = choose|i: int| is_first::<V, E>(object.values(), i);
        assert(E::member(object.values()[i]) is Some);
    }
}

/// The values of an error are those it was made of, outermost first.
pub proof fn values_are_those_it_was_made_of<V: Value>(value: V, context: V, error: Error<V>)
    ensures
        ErrorObject::Std(value).values() == seq![value],
        ErrorObject::Message(MessageError(value)).values() == seq![value],
        ErrorObject::Display(DisplayError(value)).values() == seq![value],
        ErrorObject::Context(ContextError { context, error: value }).values() == seq![
            context,
            value,
        ],
        ErrorObject::ContextChain(ContextError { context, error }).values() == seq![context]
            + error@.object.values(),
{
}

/// A change through a downcast takes place in the value that the downcast
/// finds. Everything around that value stays as it was.
pub proof fn change_takes_place_where_downcast_finds<V: Value, E: Member<V>>(
    object: ErrorObject<V>,
    new: V,
    other: ErrorObject<V>,
)
    requires
        first_index::<V, E>(object.values()) matches Some(i) && object.replaced(i, new, other),
    ensures
        match object {
            ErrorObject::Std(_) => other == ErrorObject::Std(new),
            ErrorObject::Message(_) => other == ErrorObject::Message(MessageError(new)),
            ErrorObject::Display(_) => other == ErrorObject::Display(DisplayError(new)),
            ErrorObject::Context(layer) => if E::member(layer.context) is Some {
                other == ErrorObject::Context(ContextError { context: new, error: layer.error })
            } else {
                other == ErrorObject::Context(ContextError { context: layer.context, error: new })
            },
            ErrorObject::ContextChain(layer) => if E::member(layer.context) is Some {
                other == ErrorObject::ContextChain(
                    ContextError { context: new, error: layer.error },
                )
            } else {
                other matches ErrorObject::ContextChain(changed) && {
                    &&& changed.context == layer.context
                    &&& changed.error@.backtrace == layer.error@.backtrace
                    &&& first_index::<V, E>(layer.error@.object.values()) is Some
                    &&& layer.error@.object.replaced(
                        first_index::<V, E>(layer.error@.object.values())->0,
                        new,
                        changed.error@.object,
                    )
                }
            },
        },
{
    let i = first_index::<V, E>(object.values())->0;
    assert(is_first::<V, E>(object.values(), i));
    match object {
        ErrorObject::Context(layer) => {
            assert(E::member(layer.context) is Some ==> i == 0) by {
                if i > 0 {
                    assert(object.values()[0] == layer.context);
                }
            }
        },
        ErrorObject::ContextChain(layer) => {
            let inner = layer.error@.object.values();
            lemma_first_index_prepend::<V, E>(layer.context, inner);
        },
        _ => {},
    }
}

// Writing.

/// What it means that something has been written. A sink that took everything
/// holds exactly the text after what it held before. A sink that refused has
/// refused once, holds some first part of the text, and success is denied.
pub proof fn written_text_is_in_the_sink<W: Sink>(before: W, after: W, shown: Shown, ok: bool)
    requires
        wrote(before, after, shown, ok),
    ensures
        ok ==> after.written() == before.written() + shown.text,
        ok <==> after.failures() == before.failures() && shown.ok,
        after.failures() == before.failures() ==> after.written() == before.written()
            + shown.text,
        after.failures() == before.failures() || after.failures() == before.failures() + 1,
        before.written().is_prefix_of(after.written()),
        after.written().is_prefix_of(before.written() + shown.text),
{
}

/// A string takes every text and holds what has been written to it.
pub proof fn string_sink_holds_its_text(before: String, after: String, shown: Shown, ok: bool)
    requires
        wrote(before, after, shown, ok),
    ensures
        after@ == before@ + shown.text,
        ok == shown.ok,
{
}

/// A number in decimal notation reads back as the number, and has no leading
/// zero.
pub proof fn decimal_reads_back(n: nat)
    ensures
        decimal(n).len() > 0,
        forall|i: int| 0 <= i < decimal(n).len() ==> '0' <= #[trigger] decimal(n)[i] <= '9',
        decimal(n).fold_left(0int, |read: int, digit: char| 10 * read + (digit as int - '0' as int))
            == n,
        n > 0 ==> decimal(n)[0] != '0',
        n == 0 ==> decimal(n) == seq!['0'],
    decreases n,
{
    let read = |read: int, digit: char| 10 * read + (digit as int - '0' as int);
    if n < 10 {
        assert(decimal(n).drop_last() =~= Seq::empty());
        assert(Seq::<char>::empty().fold_left(0int, read) == 0);
    } else {
        decimal_reads_back(n / 10);
        assert(decimal(n).drop_last() =~= decimal(n / 10));
        assert(decimal(n)[0] == decimal(n / 10)[0]);
    }
}

// Reports.

/// The report of an error of which the whole chain can be displayed. It shows
/// the text of every error of the chain, in order: the first on a line of its
/// own, a single cause without a number, several causes numbered from zero. Then
/// comes the backtrace.
pub proof fn report_shows_every_error<V: Value>(error: ErrorImpl<V>)
    requires
        forall|i: int|
            0 <= i < error.causes().len() ==> (#[trigger] error.causes()[i]).displayed().ok,
    ensures
        error.debugged().ok,
        error.debugged().text == error.causes()[0].displayed().text + "\n"@ + (
        if error.causes().len() == 1 {
            Seq::empty()
        } else if error.causes().len() == 2 {
            "\nCaused by:\n    "@ + error.causes()[1].displayed().text + "\n"@
        } else {
            "\nCaused by:\n"@ + Seq::new(
                (error.causes().len() - 1) as nat,
                |i: int|
                    "    "@ + decimal(i as nat) + ": "@ + error.causes()[i + 1].displayed().text
                        + "\n"@,
            ).flatten()
        }) + (match error.backtrace_of() {
            Some(backtrace) => match backtrace.status {
                BacktraceStatus::Captured => "\n"@ + backtrace.text@ + "\n"@,
                BacktraceStatus::Disabled => "\nBacktrace disabled; run with RUST_LIB_BACKTRACE=1 environment variable to display a backtrace\n"@,
                BacktraceStatus::Unsupported => Seq::empty(),
            },
            None => Seq::empty(),
        }),
{
    chain_visits_every_named_source(error);
    let all = texts(error.causes());
    let rest = all.drop_first();
    assert(all[0] == error.causes()[0].displayed());
    assert forall|i: int| 0 <= i < rest.len() implies #[trigger] rest[i]
        == error.causes()[i + 1].displayed() && rest[i].ok by {
        assert(error.causes()[i + 1].displayed().ok);
    }
    if rest.len() > 1 {
        lemma_section_numbered(rest);
        lemma_lines_text(0, rest);
        assert(Seq::new(
            (error.causes().len() - 1) as nat,
            |i: int|
                "    "@ + decimal(i as nat) + ": "@ + error.causes()[i + 1].displayed().text
                    + "\n"@,
        ) =~= line_texts(0, rest, rest.len() as int));
    }
}

/// The report of an error of which one in the chain is the first that cannot be
/// displayed. It shows the text of every error before that one, in order, and
/// ends with what that one has written.
pub proof fn report_shows_errors_up_to_failure<V: Value>(error: ErrorImpl<V>, k: int)
    requires
        0 <= k < error.causes().len(),
        !error.causes()[k].displayed().ok,
        forall|i: int| 0 <= i < k ==> (#[trigger] error.causes()[i]).displayed().ok,
    ensures
        !error.debugged().ok,
        error.debugged().text == (if k == 0 {
            error.causes()[0].displayed().text
        } else if error.causes().len() == 2 {
            error.causes()[0].displayed().text + "\n"@ + "\nCaused by:\n    "@
                + error.causes()[1].displayed().text
        } else {
            error.causes()[0].displayed().text + "\n"@ + "\nCaused by:\n"@ + Seq::new(
                (k - 1) as nat,
                |i: int|
                    "    "@ + decimal(i as nat) + ": "@ + error.causes()[i + 1].displayed().text
                        + "\n"@,
            ).flatten() + "    "@ + decimal((k - 1) as nat) + ": "@
                + error.causes()[k].displayed().text
        }),
{
    chain_visits_every_named_source(error);
    let all = texts(error.causes());
    let rest = all.drop_first();
    assert(all[0] == error.causes()[0].displayed());
    if k > 0 {
        assert(error.causes()[0].displayed().ok);
        assert forall|i: int| 0 <= i < rest.len() implies #[trigger] rest[i]
            == error.causes()[i + 1].displayed() by {}
        assert forall|i: int| 0 <= i < k - 1 implies (#[trigger] rest[i]).ok by {
            assert(error.causes()[i + 1].displayed().ok);
        }
        if rest.len() > 1 {
            lemma_section_numbered(rest);
            lemma_lines_cut_text(0, rest, k - 1);
            assert(Seq::new(
                (k - 1) as nat,
                |i: int|
                    "    "@ + decimal(i as nat) + ": "@ + error.causes()[i + 1].displayed().text
                        + "\n"@,
            ) =~= line_texts(0, rest, k - 1));
            assert(error.debugged().text =~= error.causes()[0].displayed().text + "\n"@
                + "\nCaused by:\n"@ + line_texts(0, rest, k - 1).flatten() + "    "@ + decimal(
                (k - 1) as nat,
            ) + ": "@ + error.causes()[k].displayed().text);
        } else {
            assert(error.debugged().text =~= error.causes()[0].displayed().text + "\n"@
                + "\nCaused by:\n    "@ + error.causes()[1].displayed().text);
        }
    }
}

/// The first `count` lines that show `texts`, numbered from `n`.
spec fn line_texts(n: nat, texts: Seq<Shown>, count: int) -> Seq<Seq<char>> {
    Seq::new(
        count as nat,
        |i: int| "    "@ + decimal((n + i) as nat) + ": "@ + texts[i].text + "\n"@,
    )
}

proof fn lemma_section_numbered(texts: Seq<Shown>)
    requires
        texts.len() > 1,
    ensures
        causes_section(texts) == plain("\nCaused by:\n"@).followed_by(cause_lines(0, texts)),
{
    assert("\nCaused by:\n    "@ =~= "\nCaused by:\n"@ + "    "@) by {
        reveal_strlit("\nCaused by:\n    ");
        reveal_strlit("\nCaused by:\n");
        reveal_strlit("    ");
    }
    assert(causes_section(texts) =~= plain("\nCaused by:\n"@).followed_by(cause_lines(0, texts)));
}

proof fn lemma_lines_text(n: nat, texts: Seq<Shown>)
    requires
        forall|i: int| 0 <= i < texts.len() ==> (#[trigger] texts[i]).ok,
    ensures
        cause_lines(n, texts).ok,
        cause_lines(n, texts).text == line_texts(n, texts, texts.len() as int).flatten(),
    decreases texts.len(),
{
    let lines = line_texts(n, texts, texts.len() as int);
    if texts.len() > 0 {
        let rest = texts.drop_first();
        lemma_lines_text(n + 1, rest);
        assert(lines.drop_first() =~= line_texts(n + 1, rest, rest.len() as int));
    }
    assert(cause_lines(n, texts).text =~= lines.flatten());
}

proof fn lemma_lines_cut_text(n: nat, texts: Seq<Shown>, k: int)
    requires
        0 <= k < texts.len(),
        !texts[k].ok,
        forall|i: int| 0 <= i < k ==> (#[trigger] texts[i]).ok,
    ensures
        !cause_lines(n, texts).ok,
        cause_lines(n, texts).text == line_texts(n, texts, k).flatten() + "    "@ + decimal(
            (n + k) as nat,
        ) + ": "@ + texts[k].text,
    decreases texts.len(),
{
    let lines = line_texts(n, texts, k);
    if k > 0 {
        let rest = texts.drop_first();
        lemma_lines_cut_text(n + 1, rest, k - 1);
        assert(lines.drop_first() =~= line_texts(n + 1, rest, k - 1));
    }
    assert(cause_lines(n, texts).text =~= lines.flatten() + "    "@ + decimal((n + k) as nat)
        + ": "@ + texts[k].text);
}

// Strings and numbers as values.

/// A string displays as its text and shows as its text in quotation marks. It
/// has neither a source nor a backtrace, and a string holds itself.
pub proof fn strings_are_their_text(text: String)
    ensures
        text.displayed().text == text@ && text.displayed().ok,
        text.debugged().text == quoted(text@) && text.debugged().ok,
        text.source_of() is None,
        String::source_displayed(&text).text == text@ && String::source_displayed(&text).ok,
        String::next_source(&text) is None,
        Value::backtrace_of(&text) is None,
        <String as Member<String>>::erased(text) == text,
        <String as Member<String>>::member(text) == Some(text),
        text.written() == text@,
        text.failures() == 0,
{
}

/// A text or a number displays as it is written, has neither a source nor a
/// backtrace, and holds itself under its own type and nothing under the other.
pub proof fn mixed_values_are_text_or_number(text: String, number: u64)
    ensures
        Mixed::Text(text).displayed().text == text@ && Mixed::Text(text).displayed().ok,
        Mixed::Number(number).displayed().text == decimal(number as nat) && Mixed::Number(
            number,
        ).displayed().ok,
        Mixed::Text(text).debugged().text == quoted(text@) && Mixed::Text(text).debugged().ok,
        Mixed::Number(number).debugged().text == decimal(number as nat) && Mixed::Number(
            number,
        ).debugged().ok,
        Mixed::source_displayed(&Mixed::Text(text)) == Mixed::Text(text).displayed(),
        Mixed::source_displayed(&Mixed::Number(number)) == Mixed::Number(number).displayed(),
        Mixed::next_source(&Mixed::Text(text)) is None,
        Mixed::next_source(&Mixed::Number(number)) is None,
        Mixed::Text(text).source_of() is None && Mixed::Number(number).source_of() is None,
        Mixed::Text(text).backtrace_of() is None && Mixed::Number(number).backtrace_of() is None,
        <String as Member<Mixed>>::erased(text) == Mixed::Text(text),
        <u64 as Member<Mixed>>::erased(number) == Mixed::Number(number),
        <String as Member<Mixed>>::member(Mixed::Text(text)) == Some(text),
        <String as Member<Mixed>>::member(Mixed::Number(number)) is None,
        <u64 as Member<Mixed>>::member(Mixed::Number(number)) == Some(number),
        <u64 as Member<Mixed>>::member(Mixed::Text(text)) is None,
{
}

} // verus!
