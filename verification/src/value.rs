//! What an error object asks of the values that it holds.
//!
//! An error object does not know the types of the values it is made of. It
//! holds all of them as one type `V: Value`, and hands one of them out again
//! under its own type through `Member<V>`.
use crate::backtrace::Backtrace;
use crate::format::{wrote, FormatError, Shown, Sink};
use vstd::prelude::*;

verus! {

/// A value whose type has been erased: an error, a message, or a context that
/// was attached to an error.
///
/// The spec functions say what the functions return. They are left open here;
/// an impl that is verified says what they are.
pub trait Value: Sized + Send + Sync + 'static {
    /// What the lower-level source of an error is seen as. A source belongs to
    /// the error it is the source of, and is reached by reference only.
    type Source: ?Sized;

    /// What displaying the value writes.
    open spec fn displayed(&self) -> Shown {
        arbitrary()
    }

    /// What showing the value to a programmer writes.
    open spec fn debugged(&self) -> Shown {
        arbitrary()
    }

    /// The lower-level source of this error, if it has one.
    open spec fn source_of(&self) -> Option<&Self::Source> {
        arbitrary()
    }

    /// The backtrace that this error carries itself, if it carries one.
    open spec fn backtrace_of(&self) -> Option<&Backtrace> {
        arbitrary()
    }

    /// What displaying a source writes.
    open spec fn source_displayed(source: &Self::Source) -> Shown {
        arbitrary()
    }

    /// The source of a source.
    open spec fn next_source(source: &Self::Source) -> Option<&Self::Source> {
        arbitrary()
    }

    /// How far a source can be from the end of its chain of sources.
    open spec fn source_rank(source: &Self::Source) -> nat {
        arbitrary()
    }

    fn display<W: Sink>(&self, f: &mut W) -> (result: Result<(), FormatError>)
        ensures
            wrote(*old(f), *final(f), self.displayed(), result is Ok),
    ;

    fn debug<W: Sink>(&self, f: &mut W) -> (result: Result<(), FormatError>)
        ensures
            wrote(*old(f), *final(f), self.debugged(), result is Ok),
    ;

    fn source(&self) -> (source: Option<&Self::Source>)
        ensures
            source == self.source_of(),
    ;

    fn backtrace(&self) -> (backtrace: Option<&Backtrace>)
        ensures
            backtrace == self.backtrace_of(),
    ;

    fn display_source<W: Sink>(source: &Self::Source, f: &mut W) -> (result: Result<
        (),
        FormatError,
    >)
        ensures
            wrote(*old(f), *final(f), Self::source_displayed(source), result is Ok),
    ;

    /// The source of a source. No chain of sources goes on forever.
    fn source_after(source: &Self::Source) -> (next: Option<&Self::Source>)
        ensures
            next == Self::next_source(source),
            next matches Some(below) ==> Self::source_rank(below) < Self::source_rank(source),
    ;
}

/// A type whose values a `V` can hold.
///
/// As in `Value`, the spec functions are left open here.
pub trait Member<V: Value>: Sized {
    /// The `V` that holds this value.
    open spec fn erased(self) -> V {
        arbitrary()
    }

    /// The value of this type that a `V` holds, if it holds one.
    open spec fn member(value: V) -> Option<Self> {
        arbitrary()
    }

    /// Erases the type, and nothing of the value.
    fn erase(self) -> (value: V)
        ensures
            value == self.erased(),
            Self::member(value) == Some(self),
    ;

    /// Takes the value out, or gives the `V` back if it holds another type.
    fn take(value: V) -> (taken: Result<Self, V>)
        ensures
            match taken {
                Ok(member) => Self::member(value) == Some(member),
                Err(back) => Self::member(value) is None && back == value,
            },
    ;

    /// Looks at the value in place.
    fn get(value: &V) -> (found: Option<&Self>)
        ensures
            match found {
                Some(member) => Self::member(*value) == Some(*member),
                None => Self::member(*value) is None,
            },
    ;

    /// Looks at the value in place, to change it.
    fn get_mut(value: &mut V) -> (found: Option<&mut Self>)
        ensures
            match found {
                Some(member) => {
                    &&& Self::member(*old(value)) == Some(*member)
                    &&& *final(value) == (*final(member)).erased()
                    &&& Self::member(*final(value)) == Some(*final(member))
                },
                None => Self::member(*old(value)) is None && *final(value) == *old(value),
            },
    ;
}

/// `value` holds an `E`.
pub open spec fn holds<V: Value, E: Member<V>>(value: V) -> bool {
    E::member(value) is Some
}

/// Erasing the type of `member` keeps its value.
pub open spec fn kept<V: Value, E: Member<V>>(member: E) -> bool {
    E::member(member.erased()) == Some(member)
}

/// `i` is the index of the first of `values` that holds an `E`.
pub open spec fn is_first<V: Value, E: Member<V>>(values: Seq<V>, i: int) -> bool {
    &&& 0 <= i < values.len()
    &&& holds::<V, E>(values[i])
    &&& forall|j: int| 0 <= j < i ==> !holds::<V, E>(#[trigger] values[j])
}

/// The index of the first of `values` that holds an `E`, if one of them does.
pub open spec fn first_index<V: Value, E: Member<V>>(values: Seq<V>) -> Option<int> {
    if exists|i: int| is_first::<V, E>(values, i) {
        Some(choose|i: int| is_first::<V, E>(values, i))
    } else {
        None
    }
}

/// The first of `values` that is an `E`, under that type.
pub open spec fn first_member<V: Value, E: Member<V>>(values: Seq<V>) -> Option<E> {
    match first_index::<V, E>(values) {
        Some(i) => E::member(values[i]),
        None => None,
    }
}

/// There is no more than one first index.
pub proof fn lemma_first_index<V: Value, E: Member<V>>(values: Seq<V>, i: int)
    requires
        is_first::<V, E>(values, i),
    ensures
        first_index::<V, E>(values) == Some(i),
{
    let k = choose|k: int| is_first::<V, E>(values, k);
    assert(is_first::<V, E>(values, k));
    if k < i {
        assert(!holds::<V, E>(values[k]));
    }
    if i < k {
        assert(!holds::<V, E>(values[i]));
    }
}

/// There is no first index exactly if none of the values holds an `E`.
pub proof fn lemma_no_first_index<V: Value, E: Member<V>>(values: Seq<V>)
    ensures
        first_index::<V, E>(values) is None <==> forall|i: int|
            0 <= i < values.len() ==> !holds::<V, E>(#[trigger] values[i]),
{
    if exists|i: int| 0 <= i < values.len() && holds::<V, E>(#[trigger] values[i]) {
        let i = choose|i: int| 0 <= i < values.len() && holds::<V, E>(#[trigger] values[i]);
        lemma_first_at_most::<V, E>(values, i);
    }
}

proof fn lemma_first_at_most<V: Value, E: Member<V>>(values: Seq<V>, i: int)
    requires
        0 <= i < values.len(),
        holds::<V, E>(values[i]),
    ensures
        exists|k: int| is_first::<V, E>(values, k),
    decreases i,
{
    if exists|j: int| 0 <= j < i && holds::<V, E>(#[trigger] values[j]) {
        let j = choose|j: int| 0 <= j < i && holds::<V, E>(#[trigger] values[j]);
        lemma_first_at_most::<V, E>(values, j);
    } else {
        assert(is_first::<V, E>(values, i));
    }
}

/// Where the first `E` is found that is either `value`, or in what follows it,
/// where it is found at `after`.
pub open spec fn found_in<V: Value, E: Member<V>>(value: V, after: Option<int>) -> Option<int> {
    if holds::<V, E>(value) {
        Some(0)
    } else {
        match after {
            Some(i) => Some(i + 1),
            None => None,
        }
    }
}

/// The first index in a sequence is that of its first value or else comes from
/// the rest of the sequence.
pub proof fn lemma_first_index_prepend<V: Value, E: Member<V>>(value: V, rest: Seq<V>)
    ensures
        first_index::<V, E>(seq![value] + rest) == found_in::<V, E>(
            value,
            first_index::<V, E>(rest),
        ),
{
    let all = seq![value] + rest;
    if holds::<V, E>(value) {
        lemma_first_index::<V, E>(all, 0);
    } else if first_index::<V, E>(rest) is Some {
        let i = choose|i: int| is_first::<V, E>(rest, i);
        assert(is_first::<V, E>(all, i + 1)) by {
            assert forall|j: int| 0 <= j < i + 1 implies !holds::<V, E>(#[trigger] all[j]) by {
                if j > 0 {
                    assert(all[j] == rest[j - 1]);
                }
            }
        }
        lemma_first_index::<V, E>(all, i + 1);
    } else {
        lemma_no_first_index::<V, E>(rest);
        assert forall|j: int| 0 <= j < all.len() implies !holds::<V, E>(#[trigger] all[j]) by {
            if j > 0 {
                assert(all[j] == rest[j - 1]);
            }
        }
        lemma_no_first_index::<V, E>(all);
    }
}

} // verus!
