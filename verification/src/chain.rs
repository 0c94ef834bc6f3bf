//! The chain of causes of an error.
use crate::error::{DisplayError, Error, ErrorImpl, ErrorObject, MessageError};
use crate::format::{wrote, FormatError, Shown, Sink};
use crate::value::Value;
use vstd::prelude::*;

verus! {

/// One error in the chain of causes of an error, seen by reference.
pub enum Cause<'a, V: Value> {
    /// An error object.
    Object(&'a ErrorObject<V>),
    /// The error inside an error object that adds a context to it.
    Value(&'a V),
    /// A source that an error of its own right has.
    Source(&'a V::Source),
}

/// An iterator over the chain of causes of an error.
pub struct Chain<'a, V: Value> {
    next: Option<Cause<'a, V>>,
}

impl<'a, V: Value> Cause<'a, V> {
    /// What displaying the error writes.
    pub open spec fn displayed(self) -> Shown {
        match self {
            Cause::Object(object) => object.displayed(),
            Cause::Value(value) => value.displayed(),
            Cause::Source(source) => V::source_displayed(source),
        }
    }

    /// The lower-level source of the error, if it has one.
    pub open spec fn source_of(self) -> Option<Cause<'a, V>> {
        match self {
            Cause::Object(object) => object.source_of(),
            Cause::Value(value) => value_source(value),
            Cause::Source(source) => source_below::<V>(source),
        }
    }

    /// A bound on how many error objects and values are left in the chain.
    pub open spec fn level(self) -> nat {
        match self {
            Cause::Object(object) => object.height() + 1,
            Cause::Value(_) => 1,
            Cause::Source(_) => 0,
        }
    }

    /// How far the error can be from the end of its chain of sources.
    pub open spec fn rank(self) -> nat {
        match self {
            Cause::Source(source) => V::source_rank(source),
            _ => 0,
        }
    }

    /// This error, its source, the source of its source, and so on to the end.
    pub open spec fn chain(self) -> Seq<Cause<'a, V>>
        decreases self.level(), self.rank(),
    {
        match self.source_of() {
            Some(source) => {
                proof {
                    self.lemma_source_below();
                }
                seq![self] + source.chain()
            },
            None => seq![self],
        }
    }

    /// A source is nearer to the end of the chain.
    pub proof fn lemma_source_below(self)
        ensures
            self.source_of() matches Some(source) ==> source.level() < self.level() || (
            source.level() == self.level() && source.rank() < self.rank()),
    {
    }

    /// The last error of a chain has no source.
    pub proof fn lemma_last_has_no_source(self)
        ensures
            self.chain().len() > 0,
            self.chain().last().source_of() is None,
        decreases self.level(), self.rank(),
    {
        if let Some(source) = self.source_of() {
            self.lemma_source_below();
            source.lemma_last_has_no_source();
            assert(self.chain().last() == source.chain().last());
        }
    }

    pub fn display<W: Sink>(&self, f: &mut W) -> (result: Result<(), FormatError>)
        ensures
            wrote(*old(f), *final(f), self.displayed(), result is Ok),
    {
        match self {
            Cause::Object(object) => object.display(f),
            Cause::Value(value) => value.display(f),
            Cause::Source(source) => V::display_source(source, f),
        }
    }

    /// The lower-level source of the error.
    pub fn source(&self) -> (source: Option<Cause<'a, V>>)
        ensures
            source == self.source_of(),
            match *self {
                Cause::Object(object) => source == object.source_of(),
                Cause::Value(value) => match value.source_of() {
                    Some(below) => source == Some(Cause::<'a, V>::Source(below)),
                    None => source is None,
                },
                Cause::Source(above) => match V::next_source(above) {
                    Some(below) => source == Some(Cause::<'a, V>::Source(below)),
                    None => source is None,
                },
            },
    {
        match self {
            Cause::Object(object) => object.source(),
            Cause::Value(value) => match value.source() {
                Some(source) => Some(Cause::Source(source)),
                None => None,
            },
            Cause::Source(source) => match V::source_after(source) {
                Some(next) => Some(Cause::Source(next)),
                None => None,
            },
        }
    }
}

/// The source of an error of its own right.
pub open spec fn value_source<'a, V: Value>(value: &'a V) -> Option<Cause<'a, V>> {
    match value.source_of() {
        Some(source) => Some(Cause::Source(source)),
        None => None,
    }
}

/// The source of a source, which is nearer to the end of the chain.
pub open spec fn source_below<'a, V: Value>(source: &'a V::Source) -> Option<Cause<'a, V>> {
    match V::next_source(source) {
        Some(next) if V::source_rank(next) < V::source_rank(source) => Some(Cause::Source(next)),
        _ => None,
    }
}

impl<V: Value> ErrorObject<V> {
    /// The lower-level source of the object: for a context, the error that the
    /// context is attached to.
    pub open spec fn source_of<'a>(&'a self) -> Option<Cause<'a, V>> {
        match self {
            ErrorObject::Std(error) => value_source(error),
            ErrorObject::Message(_) => None,
            ErrorObject::Display(_) => None,
            ErrorObject::Context(layer) => Some(Cause::Value(&layer.error)),
            ErrorObject::ContextChain(layer) => Some(Cause::Object(&layer.error@.object)),
        }
    }

    pub fn source<'a>(&'a self) -> (source: Option<Cause<'a, V>>)
        ensures
            source == self.source_of(),
    {
        match self {
            ErrorObject::Std(error) => match error.source() {
                Some(source) => Some(Cause::Source(source)),
                None => None,
            },
            ErrorObject::Message(message) => message.source(),
            ErrorObject::Display(message) => message.source(),
            ErrorObject::Context(layer) => Some(Cause::Value(&layer.error)),
            ErrorObject::ContextChain(layer) => Some(Cause::Object(layer.error.inner().error())),
        }
    }
}

impl<M: Value> MessageError<M> {
    /// A message has no source.
    pub fn source<'a>(&'a self) -> (source: Option<Cause<'a, M>>)
        ensures
            source is None,
    {
        None
    }
}

impl<M: Value> DisplayError<M> {
    /// A message has no source.
    pub fn source<'a>(&'a self) -> (source: Option<Cause<'a, M>>)
        ensures
            source is None,
    {
        None
    }
}

impl<'a, V: Value> View for Chain<'a, V> {
    type V = Seq<Cause<'a, V>>;

    /// The errors that are yet to come.
    closed spec fn view(&self) -> Seq<Cause<'a, V>> {
        match self.next {
            Some(cause) => cause.chain(),
            None => Seq::empty(),
        }
    }
}

impl<'a, V: Value> Chain<'a, V> {
    /// The next error of the chain.
    pub fn next(&mut self) -> (next: Option<Cause<'a, V>>)
        ensures
            if old(self)@.len() == 0 {
                next is None && final(self)@ == old(self)@
            } else {
                next == Some(old(self)@[0]) && final(self)@ == old(self)@.drop_first()
            },
            next matches Some(Cause::Source(source)) ==> (final(self)@.len() == 0
                <==> V::next_source(source) is None),
            next matches Some(Cause::Value(value)) ==> (final(self)@.len() == 0
                <==> value.source_of() is None),
    {
        match self.next.take() {
            Some(next) => {
                self.next = next.source();
                assert(self@ =~= next.chain().drop_first());
                Some(next)
            },
            None => None,
        }
    }
}

impl<V: Value> ErrorImpl<V> {
    /// The chain of errors that begins with the error object.
    pub open spec fn causes<'a>(&'a self) -> Seq<Cause<'a, V>> {
        Cause::Object(&self.object).chain()
    }

    /// An iterator over the chain of errors that begins with the error object.
    pub fn chain<'a>(&'a self) -> (chain: Chain<'a, V>)
        ensures
            chain@ == self.causes(),
    {
        Chain { next: Some(Cause::Object(self.error())) }
    }

    /// The lower-level source of the error object.
    pub fn source<'a>(&'a self) -> (source: Option<Cause<'a, V>>)
        ensures
            source == self.object.source_of(),
    {
        self.error().source()
    }
}

impl<V: Value> Error<V> {
    /// An iterator over the chain of source errors contained by this error.
    ///
    /// It visits every error in the cause chain, beginning with the object that
    /// this error was created from.
    pub fn chain<'a>(&'a self) -> (chain: Chain<'a, V>)
        ensures
            chain@ == self@.causes(),
    {
        self.inner().chain()
    }

    /// The lowest level cause of this error: the last error of its chain.
    pub fn root_cause<'a>(&'a self) -> (root: Cause<'a, V>)
        ensures
            root == self@.causes().last(),
            root.source_of() is None,
            root matches Cause::Source(source) ==> V::next_source(source) is None,
            root matches Cause::Value(value) ==> value.source_of() is None,
    {
        let mut chain = self.chain();
        let mut root_cause = chain.next().unwrap();
        loop
            invariant
                chain@.len() == 0 ==> root_cause == self@.causes().last(),
                chain@.len() == 0 ==> (root_cause matches Cause::Source(source)
                    ==> V::next_source(source) is None),
                chain@.len() == 0 ==> (root_cause matches Cause::Value(value)
                    ==> value.source_of() is None),
                chain@.len() > 0 ==> chain@.last() == self@.causes().last(),
            ensures
                root_cause == self@.causes().last(),
                root_cause matches Cause::Source(source) ==> V::next_source(source) is None,
                root_cause matches Cause::Value(value) ==> value.source_of() is None,
            decreases chain@.len(),
        {
            match chain.next() {
                Some(cause) => {
                    root_cause = cause;
                },
                None => {
                    break;
                },
            }
        }
        proof {
            Cause::Object(&self@.object).lemma_last_has_no_source();
        }
        root_cause
    }
}

} // verus!
