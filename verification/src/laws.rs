//! What holds of errors across operations.
use crate::backtrace::Backtrace;
use crate::chain::Cause;
use crate::decimal::decimal;
use crate::error::{
    lemma_error_view, with_context, ContextError, DisplayError, Error, ErrorImpl, ErrorObject,
    MessageError,
};
use crate::format::{plain, Shown};
use crate::report::{
    backtrace_section, cause_lines, causes_section, line, numbered_line, report, texts,
};
use crate::value::{
    first_index, first_member, holds, is_first, kept, lemma_first_index, lemma_first_index_prepend,
    Member, Value,
};
use vstd::prelude::*;

verus! {

/// The chain of an error begins with the object that the error was created
/// from.
pub proof fn chain_begins_with_object<V: Value>(error: ErrorImpl<V>)
    ensures
        error.causes().len() > 0,
        error.causes()[0] == Cause::Object(&error.object),
{
}

/// Each error in a chain is the source of the one before it, and the last one,
/// the root cause, has no source.
pub proof fn chain_follows_sources<'a, V: Value>(cause: Cause<'a, V>)
    ensures
        cause.chain().len() > 0,
        forall|i: int|
            0 <= i < cause.chain().len() - 1 ==> (#[trigger] cause.chain()[i]).source_of() == Some(
                cause.chain()[i + 1],
            ),
        cause.chain().last().source_of() is None,
    decreases cause.level(), cause.rank(),
{
    if let Some(source) = cause.source_of() {
        cause.lemma_source_below();
        chain_follows_sources(source);
        assert(cause.chain() =~= seq![cause] + source.chain());
        assert(source.chain()[0] == source);
        assert forall|i: int| 0 <= i < cause.chain().len() - 1 implies (
        #[trigger] cause.chain()[i]).source_of() == Some(cause.chain()[i + 1]) by {
            if i > 0 {
                assert(source.chain()[i - 1].source_of() == Some(source.chain()[i]));
            }
        }
    }
}

/// Wrapping an error with a context puts one error, which displays as the
/// context, in front of its chain, and leaves its root cause and its backtrace
/// as they were.
pub proof fn context_extends_chain<V: Value>(error: Error<V>, context: V)
    ensures
        ({
            let wrapped = with_context(error, context);
            &&& wrapped.causes() == seq![Cause::Object(&wrapped.object)] + error@.causes()
            &&& wrapped.object.displayed() == context.displayed()
            &&& wrapped.causes().last() == error@.causes().last()
            &&& wrapped.backtrace_of() == error@.backtrace_of()
        }),
{
    chain_begins_with_object(error@);
}

/// The report of an error that is wrapped with a context displays the context,
/// and then every error of the chain that the context was attached to.
pub proof fn context_report<V: Value>(error: Error<V>, context: V)
    ensures
        with_context(error, context).debugged() == line(context.displayed()).followed_by(
            causes_section(texts(error@.causes())),
        ).followed_by(plain(backtrace_section(error@.backtrace_of()))),
{
    let wrapped = with_context(error, context);
    context_extends_chain(error, context);
    assert(texts(wrapped.causes()).drop_first() =~= texts(error@.causes()));
}

/// An error displays as the first error of its chain does. Its report begins
/// with that text on a line of its own, and ends with it if the error cannot be
/// displayed.
pub proof fn report_begins_with_display<V: Value>(error: ErrorImpl<V>)
    ensures
        error.object.displayed() == error.causes()[0].displayed(),
        error.object.displayed().ok ==> (error.object.displayed().text + "\n"@).is_prefix_of(
            error.debugged().text,
        ),
        !error.object.displayed().ok ==> error.debugged() == error.object.displayed(),
{
    chain_begins_with_object(error);
    assert(texts(error.causes())[0] == error.object.displayed());
}

/// A report is made of what displaying the errors of the chain writes, and of
/// the backtrace: errors that agree in these have the same report, whatever
/// else sets them apart.
pub proof fn report_is_made_of_displays<V: Value, W: Value>(a: ErrorImpl<V>, b: ErrorImpl<W>)
    requires
        texts(a.causes()) == texts(b.causes()),
        a.backtrace_of() == b.backtrace_of(),
    ensures
        a.debugged() == b.debugged(),
{
}

/// A report comes to its end exactly if every error of the chain can be
/// displayed.
pub proof fn report_ends_if_all_display<V: Value>(error: ErrorImpl<V>)
    ensures
        error.debugged().ok <==> forall|i: int|
            0 <= i < error.causes().len() ==> (#[trigger] error.causes()[i]).displayed().ok,
{
    chain_begins_with_object(error);
    let all = texts(error.causes());
    let rest = all.drop_first();
    lemma_section_ok(rest);
    if error.debugged().ok {
        assert forall|i: int| 0 <= i < error.causes().len() implies (
        #[trigger] error.causes()[i]).displayed().ok by {
            assert(all[i] == error.causes()[i].displayed());
            if i > 0 {
                assert(rest[i - 1].ok);
            }
        }
    }
    if forall|i: int|
        0 <= i < error.causes().len() ==> (#[trigger] error.causes()[i]).displayed().ok {
        assert(error.causes()[0].displayed().ok);
        assert forall|i: int| 0 <= i < rest.len() implies (#[trigger] rest[i]).ok by {
            assert(rest[i] == error.causes()[i + 1].displayed());
        }
    }
}

proof fn lemma_section_ok(texts: Seq<Shown>)
    ensures
        causes_section(texts).ok <==> forall|i: int|
            0 <= i < texts.len() ==> (#[trigger] texts[i]).ok,
{
    if texts.len() > 1 {
        lemma_lines_ok(1, texts.drop_first());
        if causes_section(texts).ok {
            assert forall|i: int| 0 <= i < texts.len() implies (#[trigger] texts[i]).ok by {
                if i > 0 {
                    assert(texts.drop_first()[i - 1].ok);
                }
            }
        }
    }
}

proof fn lemma_lines_ok(n: nat, texts: Seq<Shown>)
    ensures
        cause_lines(n, texts).ok <==> forall|i: int|
            0 <= i < texts.len() ==> (#[trigger] texts[i]).ok,
    decreases texts.len(),
{
    if texts.len() > 0 {
        lemma_lines_ok(n + 1, texts.drop_first());
        if cause_lines(n, texts).ok {
            assert forall|i: int| 0 <= i < texts.len() implies (#[trigger] texts[i]).ok by {
                if i > 0 {
                    assert(texts.drop_first()[i - 1].ok);
                }
            }
        }
    }
}

/// A report in which an error cannot be displayed ends there: nothing follows
/// what that error has written. It is the first part of the report that it
/// would have been otherwise, whatever the errors from that one on would have
/// displayed.
pub proof fn report_ends_at_failure(
    texts: Seq<Shown>,
    others: Seq<Shown>,
    backtrace: Option<&Backtrace>,
    k: int,
)
    requires
        0 <= k < texts.len(),
        texts.len() == others.len(),
        forall|i: int| 0 <= i < k ==> texts[i] == others[i],
        texts[k].cut_short(others[k]),
    ensures
        report(texts, backtrace).cut_short(report(others, backtrace)),
{
    let newline = plain("\n"@);
    let last = plain(backtrace_section(backtrace));
    let rest = texts.drop_first();
    let other_rest = others.drop_first();
    let section = causes_section(rest);
    let other_section = causes_section(other_rest);
    if k == 0 {
        texts[0].lemma_cut_before(others[0], newline, newline);
        line(texts[0]).lemma_cut_before(line(others[0]), section, other_section);
    } else {
        lemma_section_cut(rest, other_rest, k - 1);
        line(texts[0]).lemma_cut_after(section, other_section);
    }
    line(texts[0]).followed_by(section).lemma_cut_before(
        line(others[0]).followed_by(other_section),
        last,
        last,
    );
}

proof fn lemma_section_cut(texts: Seq<Shown>, others: Seq<Shown>, k: int)
    requires
        0 <= k < texts.len(),
        texts.len() == others.len(),
        forall|i: int| 0 <= i < k ==> texts[i] == others[i],
        texts[k].cut_short(others[k]),
    ensures
        causes_section(texts).cut_short(causes_section(others)),
{
    let head = plain("\nCaused by:\n    "@);
    let newline = plain("\n"@);
    let number = plain(decimal(0) + ": "@);
    let lines = cause_lines(1, texts.drop_first());
    let other_lines = cause_lines(1, others.drop_first());
    if k == 0 {
        texts[0].lemma_cut_before(others[0], newline, newline);
        head.lemma_cut_after(line(texts[0]), line(others[0]));
        number.lemma_cut_after(line(texts[0]), line(others[0]));
        head.lemma_cut_after(numbered_line(0, texts[0]), numbered_line(0, others[0]));
        head.followed_by(numbered_line(0, texts[0])).lemma_cut_before(
            head.followed_by(numbered_line(0, others[0])),
            lines,
            other_lines,
        );
    } else {
        lemma_lines_cut(1, texts.drop_first(), others.drop_first(), k - 1);
        head.followed_by(numbered_line(0, texts[0])).lemma_cut_after(lines, other_lines);
    }
}

proof fn lemma_lines_cut(n: nat, texts: Seq<Shown>, others: Seq<Shown>, k: int)
    requires
        0 <= k < texts.len(),
        texts.len() == others.len(),
        forall|i: int| 0 <= i < k ==> texts[i] == others[i],
        texts[k].cut_short(others[k]),
    ensures
        cause_lines(n, texts).cut_short(cause_lines(n, others)),
    decreases texts.len(),
{
    let indent = plain("    "@);
    let newline = plain("\n"@);
    let number = plain(decimal(n) + ": "@);
    let lines = cause_lines(n + 1, texts.drop_first());
    let other_lines = cause_lines(n + 1, others.drop_first());
    if k == 0 {
        texts[0].lemma_cut_before(others[0], newline, newline);
        number.lemma_cut_after(line(texts[0]), line(others[0]));
        indent.lemma_cut_after(numbered_line(n, texts[0]), numbered_line(n, others[0]));
        indent.followed_by(numbered_line(n, texts[0])).lemma_cut_before(
            indent.followed_by(numbered_line(n, others[0])),
            lines,
            other_lines,
        );
    } else {
        lemma_lines_cut(n + 1, texts.drop_first(), others.drop_first(), k - 1);
        indent.followed_by(numbered_line(n, texts[0])).lemma_cut_after(lines, other_lines);
    }
}

/// The numbered lines that show `texts`, counted from `n`.
pub open spec fn numbered_texts(n: nat, texts: Seq<Seq<char>>) -> Seq<char>
    decreases texts.len(),
{
    if texts.len() == 0 {
        Seq::empty()
    } else {
        "    "@ + decimal(n) + ": "@ + texts[0] + "\n"@ + numbered_texts(
            n + 1,
            texts.drop_first(),
        )
    }
}

/// The report of an error of which the whole chain can be displayed, as one
/// text. A single cause stands there without a number, and several are numbered
/// from zero, in the order of the chain.
pub proof fn report_of_displayable_chain<V: Value>(error: ErrorImpl<V>)
    requires
        forall|i: int|
            0 <= i < error.causes().len() ==> (#[trigger] error.causes()[i]).displayed().ok,
    ensures
        ({
            let all = texts(error.causes()).map_values(|shown: Shown| shown.text);
            let rest = all.drop_first();
            let causes = if rest.len() == 0 {
                Seq::empty()
            } else if rest.len() == 1 {
                "\nCaused by:\n    "@ + rest[0] + "\n"@
            } else {
                "\nCaused by:\n"@ + numbered_texts(0, rest)
            };
            error.debugged() == plain(
                all[0] + "\n"@ + causes + backtrace_section(error.backtrace_of()),
            )
        }),
{
    chain_begins_with_object(error);
    let shown = texts(error.causes());
    let all = shown.map_values(|shown: Shown| shown.text);
    let rest = all.drop_first();
    let shown_rest = shown.drop_first();
    assert(shown[0] == error.causes()[0].displayed());
    assert(rest =~= shown_rest.map_values(|shown: Shown| shown.text));
    assert forall|i: int| 0 <= i < shown_rest.len() implies (#[trigger] shown_rest[i]).ok by {
        assert(shown_rest[i] == error.causes()[i + 1].displayed());
    }
    if rest.len() == 0 {
        assert(error.debugged() =~= plain(
            all[0] + "\n"@ + Seq::empty() + backtrace_section(error.backtrace_of()),
        ));
    } else if rest.len() == 1 {
        assert(error.debugged() =~= plain(
            all[0] + "\n"@ + ("\nCaused by:\n    "@ + rest[0] + "\n"@) + backtrace_section(
                error.backtrace_of(),
            ),
        ));
    } else {
        lemma_numbered_texts(1, shown_rest.drop_first());
        assert(rest.drop_first() =~= shown_rest.drop_first().map_values(
            |shown: Shown| shown.text,
        ));
        assert("\nCaused by:\n    "@ =~= "\nCaused by:\n"@ + "    "@) by {
            reveal_strlit("\nCaused by:\n    ");
            reveal_strlit("\nCaused by:\n");
            reveal_strlit("    ");
        }
        assert(error.debugged() =~= plain(
            all[0] + "\n"@ + ("\nCaused by:\n"@ + numbered_texts(0, rest)) + backtrace_section(
                error.backtrace_of(),
            ),
        ));
    }
}

proof fn lemma_numbered_texts(n: nat, texts: Seq<Shown>)
    requires
        forall|i: int| 0 <= i < texts.len() ==> (#[trigger] texts[i]).ok,
    ensures
        cause_lines(n, texts) == plain(
            numbered_texts(n, texts.map_values(|shown: Shown| shown.text)),
        ),
    decreases texts.len(),
{
    let plain_texts = texts.map_values(|shown: Shown| shown.text);
    if texts.len() > 0 {
        lemma_numbered_texts(n + 1, texts.drop_first());
        assert(plain_texts.drop_first() =~= texts.drop_first().map_values(
            |shown: Shown| shown.text,
        ));
    }
    assert(cause_lines(n, texts) =~= plain(numbered_texts(n, plain_texts)));
}

/// Downcasting an error to the type that it was created from gives back the
/// value it was created from, whether that was an error or a message.
pub proof fn downcast_undoes_creation<V: Value, E: Member<V>>(value: E, object: ErrorObject<V>)
    requires
        kept(value),
        ({
            ||| object == ErrorObject::Std(value.erased())
            ||| object == ErrorObject::Message(MessageError(value.erased()))
            ||| object == ErrorObject::Display(DisplayError(value.erased()))
        }),
    ensures
        first_member::<V, E>(object.values()) == Some(value),
{
    lemma_first_index::<V, E>(object.values(), 0);
}

/// Downcasting an error that was created from an error and a context gives back
/// the context for the type of the context, and the error for the type of the
/// error, unless the two types are one: then the context comes first.
pub proof fn downcast_undoes_from_context<V: Value, C: Member<V>, E: Member<V>>(
    context: C,
    error: E,
)
    requires
        kept(context),
        kept(error),
    ensures
        ({
            let values = ErrorObject::Context(
                ContextError { context: context.erased(), error: error.erased() },
            ).values();
            &&& first_member::<V, C>(values) == Some(context)
            &&& !holds::<V, E>(context.erased()) ==> first_member::<V, E>(values) == Some(error)
            &&& holds::<V, E>(context.erased()) ==> first_member::<V, E>(values) == E::member(
                context.erased(),
            )
        }),
{
    let values = ErrorObject::Context(
        ContextError { context: context.erased(), error: error.erased() },
    ).values();
    lemma_first_index::<V, C>(values, 0);
    if holds::<V, E>(context.erased()) {
        lemma_first_index::<V, E>(values, 0);
    } else {
        lemma_first_index::<V, E>(values, 1);
    }
}

/// Downcasting a wrapped error to the type of its context gives the context.
pub proof fn downcast_undoes_context<V: Value, C: Member<V>>(error: Error<V>, context: C)
    requires
        kept(context),
    ensures
        first_member::<V, C>(with_context(error, context.erased()).object.values()) == Some(
            context,
        ),
{
    lemma_first_index::<V, C>(with_context(error, context.erased()).object.values(), 0);
}

/// A context hides nothing of another type: downcasting a wrapped error gives
/// what downcasting the error gave before it was wrapped, unless the context
/// has the type in question and comes first.
pub proof fn downcast_reaches_under_context<V: Value, E: Member<V>>(error: Error<V>, context: V)
    ensures
        first_member::<V, E>(with_context(error, context).object.values()) == (if holds::<V, E>(
            context,
        ) {
            E::member(context)
        } else {
            first_member::<V, E>(error@.object.values())
        }),
        first_index::<V, E>(error@.object.values()) is Some ==> first_index::<V, E>(
            with_context(error, context).object.values(),
        ) is Some,
{
    let values = error@.object.values();
    let wrapped = with_context(error, context).object.values();
    lemma_first_index_prepend::<V, E>(context, values);
    if first_index::<V, E>(values) is Some {
        let i = choose|i: int| is_first::<V, E>(values, i);
        assert(wrapped[i + 1] == values[i]);
    }
}

/// Changing a value in place changes that value and no other.
pub proof fn replaced_changes_one_value<V: Value>(
    object: ErrorObject<V>,
    i: int,
    value: V,
    other: ErrorObject<V>,
)
    requires
        object.replaced(i, value, other),
    ensures
        0 <= i < object.values().len(),
        other.values() == object.values().update(i, value),
    decreases object.height(),
{
    match (object, other) {
        (ErrorObject::ContextChain(a), ErrorObject::ContextChain(b)) => {
            if i > 0 {
                replaced_changes_one_value(a.error@.object, i - 1, value, b.error@.object);
            }
            assert(other.values() =~= object.values().update(i, value));
        },
        _ => {
            assert(other.values() =~= object.values().update(i, value));
        },
    }
}

/// What a change in place makes of an object is determined by the place and the
/// new value.
pub proof fn replaced_is_unique<V: Value>(
    object: ErrorObject<V>,
    i: int,
    value: V,
    a: ErrorObject<V>,
    b: ErrorObject<V>,
)
    requires
        object.replaced(i, value, a),
        object.replaced(i, value, b),
    ensures
        a == b,
    decreases object.height(),
{
    match (object, a, b) {
        (
            ErrorObject::ContextChain(o),
            ErrorObject::ContextChain(x),
            ErrorObject::ContextChain(y),
        ) => {
            if i > 0 {
                replaced_is_unique(o.error@.object, i - 1, value, x.error@.object, y.error@.object);
                lemma_error_view(x.error, y.error);
            }
        },
        _ => {},
    }
}

/// Writing a value over itself changes nothing.
pub proof fn replaced_by_itself<V: Value>(object: ErrorObject<V>, i: int, other: ErrorObject<V>)
    requires
        object.replaced(i, object.values()[i], other),
    ensures
        other == object,
    decreases object.height(),
{
    match (object, other) {
        (ErrorObject::ContextChain(a), ErrorObject::ContextChain(b)) => {
            if i > 0 {
                replaced_changes_one_value(
                    a.error@.object,
                    i - 1,
                    object.values()[i],
                    b.error@.object,
                );
                assert(object.values()[i] == a.error@.object.values()[i - 1]);
                replaced_by_itself(a.error@.object, i - 1, b.error@.object);
                lemma_error_view(a.error, b.error);
            }
        },
        _ => {},
    }
}

/// A downcast after a change in place gives the new value.
pub proof fn downcast_finds_replacement<V: Value, E: Member<V>>(
    object: ErrorObject<V>,
    replacement: E,
    other: ErrorObject<V>,
)
    requires
        kept(replacement),
        first_index::<V, E>(object.values()) matches Some(i) && object.replaced(
            i,
            replacement.erased(),
            other,
        ),
    ensures
        first_index::<V, E>(other.values()) == first_index::<V, E>(object.values()),
        first_member::<V, E>(other.values()) == Some(replacement),
{
    let i = first_index::<V, E>(object.values())->0;
    assert(is_first::<V, E>(object.values(), i));
    replaced_changes_one_value(object, i, replacement.erased(), other);
    lemma_first_index::<V, E>(other.values(), i);
}

/// An error still has a backtrace after a change in place, unless the changed
/// value has lost the backtrace it carried.
pub proof fn replaced_keeps_backtrace<V: Value>(
    object: ErrorObject<V>,
    i: int,
    value: V,
    other: ErrorObject<V>,
)
    requires
        object.replaced(i, value, other),
        object.values()[i].backtrace_of() is Some ==> value.backtrace_of() is Some,
        object.backtrace_of() is Some,
    ensures
        other.backtrace_of() is Some,
    decreases object.height(),
{
    match (object, other) {
        (ErrorObject::ContextChain(a), ErrorObject::ContextChain(b)) => {
            if i > 0 && a.error@.backtrace is None {
                replaced_changes_one_value(a.error@.object, i - 1, value, b.error@.object);
                assert(object.values()[i] == a.error@.object.values()[i - 1]);
                replaced_keeps_backtrace(a.error@.object, i - 1, value, b.error@.object);
            }
        },
        _ => {},
    }
}

/// An error still displays the same after a change in place of any value but
/// its outermost one.
pub proof fn replaced_inside_keeps_display<V: Value>(
    object: ErrorObject<V>,
    i: int,
    value: V,
    other: ErrorObject<V>,
)
    requires
        object.replaced(i, value, other),
        i > 0,
    ensures
        other.displayed() == object.displayed(),
{
}

} // verus!
