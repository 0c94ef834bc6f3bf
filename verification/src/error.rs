//! The error type and the objects it owns.
use crate::backtrace::{backtrace_if_absent, Backtrace};
use crate::format::{wrote, FormatError, Shown, Sink};
use crate::value::{
    first_index, first_member, found_in, kept, lemma_first_index_prepend, Member, Value,
};
use vstd::prelude::*;

verus! {

/// An error of any type, with any number of contexts around it, on one
/// pointer.
pub struct Error<V: Value> {
    inner: Box<ErrorImpl<V>>,
}

/// What an `Error` points to: the error object, and the backtrace that was
/// captured for it if the object does not provide one.
pub struct ErrorImpl<V: Value> {
    pub backtrace: Option<Backtrace>,
    pub object: ErrorObject<V>,
}

/// The object that an error was created from.
pub enum ErrorObject<V: Value> {
    /// An error of its own right.
    Std(V),
    /// A message that can be displayed and debugged.
    Message(MessageError<V>),
    /// A message that can only be displayed.
    Display(DisplayError<V>),
    /// A context around an error of its own right.
    Context(ContextError<V, V>),
    /// A context around an `Error`.
    ContextChain(ContextError<V, Error<V>>),
}

/// A message that serves as an error.
pub struct MessageError<M>(pub M);

/// A message that serves as an error and need not have a debug form.
pub struct DisplayError<M>(pub M);

/// An error with a context attached to it.
pub struct ContextError<C, E> {
    pub context: C,
    pub error: E,
}

impl<V: Value> View for Error<V> {
    type V = ErrorImpl<V>;

    closed spec fn view(&self) -> ErrorImpl<V> {
        *self.inner
    }
}

/// What an error wrapped with a context is: it has no backtrace of its own, as
/// the wrapped error has one.
pub open spec fn with_context<V: Value>(error: Error<V>, context: V) -> ErrorImpl<V> {
    ErrorImpl {
        backtrace: None,
        object: ErrorObject::ContextChain(ContextError { context, error }),
    }
}

/// An error is no more than what it points to.
pub proof fn lemma_error_view<V: Value>(a: Error<V>, b: Error<V>)
    requires
        a@ == b@,
    ensures
        a == b,
{
}

impl<V: Value> ErrorObject<V> {
    /// The values that the object is made of, outermost first.
    pub open spec fn values(self) -> Seq<V>
        decreases self,
    {
        match self {
            ErrorObject::Std(error) => seq![error],
            ErrorObject::Message(message) => seq![message.0],
            ErrorObject::Display(message) => seq![message.0],
            ErrorObject::Context(layer) => seq![layer.context, layer.error],
            ErrorObject::ContextChain(layer) => seq![layer.context] + layer.error@.object.values(),
        }
    }

    /// The number of errors that have been wrapped into one another to make
    /// up the object.
    pub open spec fn height(self) -> nat
        decreases self,
    {
        match self {
            ErrorObject::ContextChain(layer) => 1 + layer.error@.object.height(),
            _ => 1,
        }
    }

    /// The backtrace that the object provides itself.
    pub open spec fn backtrace_of(&self) -> Option<&Backtrace>
        decreases self,
    {
        match self {
            ErrorObject::Std(error) => error.backtrace_of(),
            ErrorObject::Message(_) => None,
            ErrorObject::Display(_) => None,
            ErrorObject::Context(layer) => layer.error.backtrace_of(),
            ErrorObject::ContextChain(layer) => match layer.error@.backtrace {
                Some(backtrace) => Some(&backtrace),
                None => layer.error@.object.backtrace_of(),
            },
        }
    }

    /// `other` is this object with `value` in place of the `i`th of its
    /// values, and with everything else, backtraces included, as it was.
    pub open spec fn replaced(self, i: int, value: V, other: ErrorObject<V>) -> bool
        decreases self,
    {
        match (self, other) {
            (ErrorObject::Std(_), ErrorObject::Std(error)) => i == 0 && error == value,
            (ErrorObject::Message(_), ErrorObject::Message(b)) => i == 0 && b.0 == value,
            (ErrorObject::Display(_), ErrorObject::Display(b)) => i == 0 && b.0 == value,
            (ErrorObject::Context(a), ErrorObject::Context(b)) => {
                ||| i == 0 && b.context == value && b.error == a.error
                ||| i == 1 && b.context == a.context && b.error == value
            },
            (ErrorObject::ContextChain(a), ErrorObject::ContextChain(b)) => {
                ||| i == 0 && b.context == value && b.error == a.error
                ||| i > 0 && b.context == a.context && b.error@.backtrace == a.error@.backtrace
                    && a.error@.object.replaced(i - 1, value, b.error@.object)
            },
            _ => false,
        }
    }
}

impl<V: Value> ContextError<V, V> {
    /// The context if it is an `E`, or else the error if it is one.
    pub fn context_downcast_ref<E: Member<V>>(&self) -> (found: Option<&E>)
        ensures
            match found {
                Some(member) => first_member::<V, E>(ErrorObject::Context(*self).values()) == Some(
                    *member,
                ),
                None => first_index::<V, E>(ErrorObject::Context(*self).values()) is None,
            },
    {
        proof {
            ErrorObject::Context(*self).lemma_first_value::<E>();
        }
        match E::get(&self.context) {
            Some(context) => Some(context),
            None => E::get(&self.error),
        }
    }

    /// The context if it is an `E`, or else the error if it is one, to be
    /// changed in place.
    pub fn context_downcast_mut<E: Member<V>>(&mut self) -> (found: Option<&mut E>)
        ensures
            match found {
                Some(member) => {
                    let before = ErrorObject::Context(*old(self));
                    &&& first_member::<V, E>(before.values()) == Some(*member)
                    &&& before.replaced(
                        first_index::<V, E>(before.values())->0,
                        (*final(member)).erased(),
                        ErrorObject::Context(*final(self)),
                    )
                    &&& kept(*final(member))
                },
                None => first_index::<V, E>(ErrorObject::Context(*old(self)).values()) is None
                    && *final(self) == *old(self),
            },
    {
        proof {
            ErrorObject::Context(*self).lemma_first_value::<E>();
        }
        match E::get_mut(&mut self.context) {
            Some(context) => Some(context),
            None => E::get_mut(&mut self.error),
        }
    }

    /// Takes the context or the error out, whichever a downcast finds, and
    /// drops the other.
    fn context_drop_rest<E: Member<V>>(self) -> (taken: E)
        requires
            first_index::<V, E>(ErrorObject::Context(self).values()) is Some,
        ensures
            first_member::<V, E>(ErrorObject::Context(self).values()) == Some(taken),
    {
        proof {
            ErrorObject::Context(self).lemma_first_value::<E>();
        }
        match E::take(self.context) {
            Ok(context) => context,
            Err(_) => take_value(self.error),
        }
    }
}

impl<V: Value> ContextError<V, Error<V>> {
    /// The context if it is an `E`, or else what a downcast of the error finds.
    pub fn context_chain_downcast_ref<E: Member<V>>(&self) -> (found: Option<&E>)
        ensures
            match found {
                Some(member) => first_member::<V, E>(ErrorObject::ContextChain(*self).values())
                    == Some(*member),
                None => first_index::<V, E>(ErrorObject::ContextChain(*self).values()) is None,
            },
        decreases self,
    {
        proof {
            ErrorObject::ContextChain(*self).lemma_first_value::<E>();
        }
        match E::get(&self.context) {
            Some(context) => Some(context),
            None => self.error.inner.object.object_downcast_ref(),
        }
    }

    /// The context if it is an `E`, or else what a downcast of the error finds,
    /// to be changed in place.
    pub fn context_chain_downcast_mut<E: Member<V>>(&mut self) -> (found: Option<&mut E>)
        ensures
            match found {
                Some(member) => {
                    let before = ErrorObject::ContextChain(*old(self));
                    &&& first_member::<V, E>(before.values()) == Some(*member)
                    &&& before.replaced(
                        first_index::<V, E>(before.values())->0,
                        (*final(member)).erased(),
                        ErrorObject::ContextChain(*final(self)),
                    )
                    &&& kept(*final(member))
                },
                None => first_index::<V, E>(ErrorObject::ContextChain(*old(self)).values()) is None
                    && *final(self) == *old(self),
            },
        decreases *old(self),
    {
        proof {
            ErrorObject::ContextChain(*self).lemma_first_value::<E>();
        }
        match E::get_mut(&mut self.context) {
            Some(context) => Some(context),
            None => self.error.inner.object.object_downcast_mut(),
        }
    }

    /// Takes the context out, or else what a downcast of the error finds, and
    /// drops the rest.
    fn context_chain_drop_rest<E: Member<V>>(self) -> (taken: E)
        requires
            first_index::<V, E>(ErrorObject::ContextChain(self).values()) is Some,
        ensures
            first_member::<V, E>(ErrorObject::ContextChain(self).values()) == Some(taken),
        decreases self,
    {
        proof {
            ErrorObject::ContextChain(self).lemma_first_value::<E>();
        }
        match E::take(self.context) {
            Ok(context) => context,
            Err(_) => {
                let inner = *self.error.inner;
                inner.object.object_drop_rest()
            },
        }
    }
}

/// Takes an `E` out of the value that holds it.
fn take_value<V: Value, E: Member<V>>(value: V) -> (taken: E)
    requires
        E::member(value) is Some,
    ensures
        E::member(value) == Some(taken),
{
    match E::take(value) {
        Ok(member) => member,
        Err(_) => vstd::pervasive::unreached(),
    }
}

impl<V: Value> ErrorObject<V> {
    /// The first of the object's values that is an `E`, outermost first.
    pub fn object_downcast_ref<E: Member<V>>(&self) -> (found: Option<&E>)
        ensures
            match found {
                Some(member) => first_member::<V, E>(self.values()) == Some(*member),
                None => first_index::<V, E>(self.values()) is None,
            },
        decreases self,
    {
        proof {
            self.lemma_first_value::<E>();
        }
        match self {
            ErrorObject::Std(error) => E::get(error),
            ErrorObject::Message(message) => E::get(&message.0),
            ErrorObject::Display(message) => E::get(&message.0),
            ErrorObject::Context(layer) => layer.context_downcast_ref(),
            ErrorObject::ContextChain(layer) => layer.context_chain_downcast_ref(),
        }
    }

    /// The first of the object's values that is an `E`, outermost first, to be
    /// changed in place.
    pub fn object_downcast_mut<E: Member<V>>(&mut self) -> (found: Option<&mut E>)
        ensures
            match found {
                Some(member) => {
                    &&& first_member::<V, E>(old(self).values()) == Some(*member)
                    &&& old(self).replaced(
                        first_index::<V, E>(old(self).values())->0,
                        (*final(member)).erased(),
                        *final(self),
                    )
                    &&& kept(*final(member))
                },
                None => first_index::<V, E>(old(self).values()) is None && *final(self) == *old(
                    self,
                ),
            },
        decreases *old(self),
    {
        proof {
            self.lemma_first_value::<E>();
        }
        match self {
            ErrorObject::Std(error) => E::get_mut(error),
            ErrorObject::Message(message) => E::get_mut(&mut message.0),
            ErrorObject::Display(message) => E::get_mut(&mut message.0),
            ErrorObject::Context(layer) => layer.context_downcast_mut(),
            ErrorObject::ContextChain(layer) => layer.context_chain_downcast_mut(),
        }
    }

    /// Takes the value out that a downcast finds, and drops the rest of the
    /// object.
    fn object_drop_rest<E: Member<V>>(self) -> (taken: E)
        requires
            first_index::<V, E>(self.values()) is Some,
        ensures
            first_member::<V, E>(self.values()) == Some(taken),
        decreases self,
    {
        proof {
            self.lemma_first_value::<E>();
        }
        match self {
            ErrorObject::Std(error) => take_value(error),
            ErrorObject::Message(message) => take_value(message.0),
            ErrorObject::Display(message) => take_value(message.0),
            ErrorObject::Context(layer) => layer.context_drop_rest(),
            ErrorObject::ContextChain(layer) => layer.context_chain_drop_rest(),
        }
    }

    /// Where a downcast finds its value: in the outermost value, or else where
    /// it finds it in what that value wraps.
    proof fn lemma_first_value<E: Member<V>>(self)
        ensures
            ({
                let found = first_index::<V, E>(self.values());
                match self {
                    ErrorObject::Std(error) => found == found_in::<V, E>(error, None),
                    ErrorObject::Message(message) => found == found_in::<V, E>(message.0, None),
                    ErrorObject::Display(message) => found == found_in::<V, E>(message.0, None),
                    ErrorObject::Context(layer) => found == found_in::<V, E>(
                        layer.context,
                        found_in::<V, E>(layer.error, None),
                    ),
                    ErrorObject::ContextChain(layer) => found == found_in::<V, E>(
                        layer.context,
                        first_index::<V, E>(layer.error@.object.values()),
                    ),
                }
            }),
    {
        let none = Seq::<V>::empty();
        match self {
            ErrorObject::Std(error) => {
                lemma_first_index_prepend::<V, E>(error, none);
                assert(self.values() =~= seq![error] + none);
            },
            ErrorObject::Message(message) => {
                lemma_first_index_prepend::<V, E>(message.0, none);
                assert(self.values() =~= seq![message.0] + none);
            },
            ErrorObject::Display(message) => {
                lemma_first_index_prepend::<V, E>(message.0, none);
                assert(self.values() =~= seq![message.0] + none);
            },
            ErrorObject::Context(layer) => {
                lemma_first_index_prepend::<V, E>(layer.error, none);
                lemma_first_index_prepend::<V, E>(layer.context, seq![layer.error]);
                assert(seq![layer.error] =~= seq![layer.error] + none);
                assert(self.values() =~= seq![layer.context] + seq![layer.error]);
            },
            ErrorObject::ContextChain(layer) => {
                lemma_first_index_prepend::<V, E>(layer.context, layer.error@.object.values());
            },
        }
    }
}

impl<V: Value> ErrorImpl<V> {
    /// The backtrace of the error: the one captured for it, or else the one
    /// that its object provides.
    pub open spec fn backtrace_of(&self) -> Option<&Backtrace> {
        match self.backtrace {
            Some(backtrace) => Some(&backtrace),
            None => self.object.backtrace_of(),
        }
    }

    /// The error object.
    pub fn error(&self) -> (object: &ErrorObject<V>)
        ensures
            *object == self.object,
    {
        &self.object
    }

    /// The error object, to be changed in place.
    pub fn error_mut(&mut self) -> (object: &mut ErrorObject<V>)
        ensures
            *object == old(self).object,
            final(self).object == *final(object),
            final(self).backtrace == old(self).backtrace,
    {
        &mut self.object
    }

    /// The backtrace of the error, if there is one.
    pub fn find_backtrace(&self) -> (backtrace: Option<&Backtrace>)
        ensures
            backtrace == self.backtrace_of(),
            self.backtrace matches Some(given) ==> backtrace == Some(&given),
        decreases self,
    {
        match &self.backtrace {
            Some(backtrace) => Some(backtrace),
            None => self.error().backtrace(),
        }
    }

    /// The backtrace of the error.
    pub fn backtrace(&self) -> (backtrace: &Backtrace)
        requires
            self.backtrace_of() is Some,
        ensures
            Some(backtrace) == self.backtrace_of(),
    {
        self.find_backtrace().expect("backtrace capture failed")
    }

    /// Displays the error object.
    pub fn display<W: Sink>(&self, f: &mut W) -> (result: Result<(), FormatError>)
        ensures
            wrote(*old(f), *final(f), self.object.displayed(), result is Ok),
    {
        self.error().display(f)
    }
}

impl<V: Value> ErrorObject<V> {
    /// The backtrace that the object provides itself.
    pub fn backtrace(&self) -> (backtrace: Option<&Backtrace>)
        ensures
            backtrace == self.backtrace_of(),
        decreases self,
    {
        match self {
            ErrorObject::Std(error) => error.backtrace(),
            ErrorObject::Message(message) => message.backtrace(),
            ErrorObject::Display(message) => message.backtrace(),
            ErrorObject::Context(layer) => layer.error.backtrace(),
            ErrorObject::ContextChain(layer) => layer.error.find_backtrace(),
        }
    }

    /// What displaying the object writes: for a context, the context alone.
    pub open spec fn displayed(self) -> Shown {
        match self {
            ErrorObject::Std(error) => error.displayed(),
            ErrorObject::Message(message) => message.0.displayed(),
            ErrorObject::Display(message) => message.0.displayed(),
            ErrorObject::Context(layer) => layer.context.displayed(),
            ErrorObject::ContextChain(layer) => layer.context.displayed(),
        }
    }

    pub fn display<W: Sink>(&self, f: &mut W) -> (result: Result<(), FormatError>)
        ensures
            wrote(*old(f), *final(f), self.displayed(), result is Ok),
    {
        match self {
            ErrorObject::Std(error) => error.display(f),
            ErrorObject::Message(message) => message.display(f),
            ErrorObject::Display(message) => message.display(f),
            ErrorObject::Context(layer) => layer.context.display(f),
            ErrorObject::ContextChain(layer) => layer.context.display(f),
        }
    }
}

impl<V: Value> ErrorObject<V> {
    /// What the debug form of the object writes, which is that of the error or the message
    /// it was created from. A context has no debug form of its own.
    pub open spec fn debugged(self) -> Option<Shown> {
        match self {
            ErrorObject::Std(error) => Some(error.debugged()),
            ErrorObject::Message(message) => Some(message.0.debugged()),
            ErrorObject::Display(message) => Some(message.0.displayed()),
            ErrorObject::Context(_) => None,
            ErrorObject::ContextChain(_) => None,
        }
    }

    /// Writes the debug form of the object, if it has one.
    pub fn debug<W: Sink>(&self, f: &mut W) -> (result: Option<Result<(), FormatError>>)
        ensures
            match self.debugged() {
                Some(shown) => result matches Some(result) && wrote(
                    *old(f),
                    *final(f),
                    shown,
                    result is Ok,
                ),
                None => result is None && *final(f) == *old(f),
            },
    {
        match self {
            ErrorObject::Std(error) => Some(error.debug(f)),
            ErrorObject::Message(message) => Some(message.debug(f)),
            ErrorObject::Display(message) => Some(message.debug(f)),
            ErrorObject::Context(_) => None,
            ErrorObject::ContextChain(_) => None,
        }
    }
}

impl<M: Value> MessageError<M> {
    pub fn display<W: Sink>(&self, f: &mut W) -> (result: Result<(), FormatError>)
        ensures
            wrote(*old(f), *final(f), self.0.displayed(), result is Ok),
    {
        self.0.display(f)
    }

    /// The debug form of the message.
    pub fn debug<W: Sink>(&self, f: &mut W) -> (result: Result<(), FormatError>)
        ensures
            wrote(*old(f), *final(f), self.0.debugged(), result is Ok),
    {
        self.0.debug(f)
    }

    /// A message provides no backtrace.
    pub fn backtrace(&self) -> (backtrace: Option<&Backtrace>)
        ensures
            backtrace is None,
    {
        None
    }
}

impl<M: Value> DisplayError<M> {
    pub fn display<W: Sink>(&self, f: &mut W) -> (result: Result<(), FormatError>)
        ensures
            wrote(*old(f), *final(f), self.0.displayed(), result is Ok),
    {
        self.0.display(f)
    }

    /// The message as it is displayed, for want of a debug form.
    pub fn debug<W: Sink>(&self, f: &mut W) -> (result: Result<(), FormatError>)
        ensures
            wrote(*old(f), *final(f), self.0.displayed(), result is Ok),
    {
        self.0.display(f)
    }

    /// A message provides no backtrace.
    pub fn backtrace(&self) -> (backtrace: Option<&Backtrace>)
        ensures
            backtrace is None,
    {
        None
    }
}

impl<V: Value> Error<V> {
    /// Creates a new error from an error of any type.
    ///
    /// If the error does not provide a backtrace, a backtrace is captured here
    /// to ensure that a backtrace exists. What that backtrace shows is up to
    /// the environment; `from_std` creates the same error with a backtrace that
    /// is given.
    pub fn new<E: Member<V>>(error: E) -> (created: Error<V>)
        ensures
            created@.object == ErrorObject::Std(error.erased()),
            created@.backtrace is Some <==> error.erased().backtrace_of() is None,
            created@.backtrace_of() is Some,
            kept(error),
    {
        let error = error.erase();
        let backtrace = backtrace_if_absent(&error);
        Error::construct(ErrorObject::Std(error), backtrace)
    }

    /// Converts an error of any type, as `new` does.
    pub fn from<E: Member<V>>(error: E) -> (created: Error<V>)
        ensures
            created@.object == ErrorObject::Std(error.erased()),
            created@.backtrace is Some <==> error.erased().backtrace_of() is None,
            created@.backtrace_of() is Some,
            kept(error),
    {
        Error::new(error)
    }

    /// An error from an error of any type, with the given backtrace.
    pub fn from_std<E: Member<V>>(error: E, backtrace: Option<Backtrace>) -> (created: Error<V>)
        ensures
            created@ == (ErrorImpl { backtrace, object: ErrorObject::Std(error.erased()) }),
            kept(error),
    {
        Error::construct(ErrorObject::Std(error.erase()), backtrace)
    }

    /// An error from a message, with the given backtrace.
    pub fn from_adhoc<M: Member<V>>(message: M, backtrace: Option<Backtrace>) -> (created: Error<V>)
        ensures
            created@ == (ErrorImpl {
                backtrace,
                object: ErrorObject::Message(MessageError(message.erased())),
            }),
            kept(message),
    {
        Error::construct(ErrorObject::Message(MessageError(message.erase())), backtrace)
    }

    /// An error from a message that can only be displayed, with the given
    /// backtrace.
    pub fn from_display<M: Member<V>>(message: M, backtrace: Option<Backtrace>) -> (created: Error<
        V,
    >)
        ensures
            created@ == (ErrorImpl {
                backtrace,
                object: ErrorObject::Display(DisplayError(message.erased())),
            }),
            kept(message),
    {
        Error::construct(ErrorObject::Display(DisplayError(message.erase())), backtrace)
    }

    /// An error from an error of any type and a context for it, with the given
    /// backtrace.
    pub fn from_context<C: Member<V>, E: Member<V>>(
        context: C,
        error: E,
        backtrace: Option<Backtrace>,
    ) -> (created: Error<V>)
        ensures
            created@ == (ErrorImpl {
                backtrace,
                object: ErrorObject::Context(
                    ContextError { context: context.erased(), error: error.erased() },
                ),
            }),
            kept(context),
            kept(error),
    {
        let layer = ContextError { context: context.erase(), error: error.erase() };
        Error::construct(ErrorObject::Context(layer), backtrace)
    }

    fn construct(object: ErrorObject<V>, backtrace: Option<Backtrace>) -> (created: Error<V>)
        ensures
            created@ == (ErrorImpl { backtrace, object }),
    {
        Error { inner: Box::new(ErrorImpl { backtrace, object }) }
    }

    /// Wraps the error with additional context. The wrapped error already has
    /// a backtrace, so none is captured.
    pub fn context<C: Member<V>>(self, context: C) -> (wrapped: Error<V>)
        ensures
            wrapped@ == with_context(self, context.erased()),
            wrapped@.backtrace is None,
            wrapped@.object == ErrorObject::ContextChain(
                ContextError { context: context.erased(), error: self },
            ),
            wrapped@.backtrace_of() == self@.backtrace_of(),
            kept(context),
    {
        let layer = ContextError { context: context.erase(), error: self };
        let backtrace = None;
        Error::construct(ErrorObject::ContextChain(layer), backtrace)
    }

    /// The backtrace of the error, if there is one: there always is one unless
    /// the error was made without it.
    pub fn find_backtrace(&self) -> (backtrace: Option<&Backtrace>)
        ensures
            backtrace == self@.backtrace_of(),
        decreases self,
    {
        self.inner.find_backtrace()
    }

    /// The backtrace of the error.
    pub fn backtrace(&self) -> (backtrace: &Backtrace)
        requires
            self@.backtrace_of() is Some,
        ensures
            Some(backtrace) == self@.backtrace_of(),
    {
        self.inner.backtrace()
    }

    /// Whether some value in the error has the type `E`.
    pub fn is<E: Member<V>>(&self) -> (found: bool)
        ensures
            found == (first_index::<V, E>(self@.object.values()) is Some),
    {
        self.downcast_ref::<E>().is_some()
    }

    /// Attempts to downcast the error to a concrete type. The outermost value
    /// of that type is taken out, and the rest of the error is dropped. An
    /// error without such a value is given back as it was.
    pub fn downcast<E: Member<V>>(self) -> (taken: Result<E, Error<V>>)
        ensures
            match taken {
                Ok(member) => first_member::<V, E>(self@.object.values()) == Some(member),
                Err(back) => first_index::<V, E>(self@.object.values()) is None && back == self,
            },
    {
        if !self.is::<E>() {
            return Err(self);
        }
        let inner = *self.inner;
        Ok(inner.object.object_drop_rest())
    }

    /// Downcasts the error by reference, to the outermost value of type `E`.
    pub fn downcast_ref<E: Member<V>>(&self) -> (found: Option<&E>)
        ensures
            match found {
                Some(member) => first_member::<V, E>(self@.object.values()) == Some(*member),
                None => first_index::<V, E>(self@.object.values()) is None,
            },
    {
        self.inner.object.object_downcast_ref()
    }

    /// Downcasts the error by mutable reference, to the outermost value of type
    /// `E`. Nothing but that value can change through the reference.
    pub fn downcast_mut<E: Member<V>>(&mut self) -> (found: Option<&mut E>)
        ensures
            final(self)@.backtrace == old(self)@.backtrace,
            match found {
                Some(member) => {
                    &&& first_member::<V, E>(old(self)@.object.values()) == Some(*member)
                    &&& old(self)@.object.replaced(
                        first_index::<V, E>(old(self)@.object.values())->0,
                        (*final(member)).erased(),
                        final(self)@.object,
                    )
                    &&& kept(*final(member))
                },
                None => first_index::<V, E>(old(self)@.object.values()) is None && *final(self)
                    == *old(self),
            },
    {
        self.inner.object.object_downcast_mut()
    }

    /// What the error points to.
    pub(crate) fn inner(&self) -> (inner: &ErrorImpl<V>)
        ensures
            *inner == self@,
    {
        &self.inner
    }

    /// Displays the error object.
    pub fn display<W: Sink>(&self, f: &mut W) -> (result: Result<(), FormatError>)
        ensures
            wrote(*old(f), *final(f), self@.object.displayed(), result is Ok),
    {
        self.inner.display(f)
    }
}

impl<V: Value> core::ops::Deref for Error<V> {
    type Target = ErrorObject<V>;

    fn deref(&self) -> (object: &ErrorObject<V>)
        ensures
            *object == self@.object,
    {
        self.inner.error()
    }
}

impl<V: Value> core::ops::DerefMut for Error<V> {
    fn deref_mut(&mut self) -> (object: &mut ErrorObject<V>)
        ensures
            *object == old(self)@.object,
            final(self)@.object == *final(object),
            final(self)@.backtrace == old(self)@.backtrace,
    {
        self.inner.error_mut()
    }
}

impl<V: Value> From<Error<V>> for Box<ErrorImpl<V>> {
    fn from(error: Error<V>) -> (boxed: Box<ErrorImpl<V>>)
        ensures
            *boxed == error@,
    {
        error.inner
    }
}

impl<V: Value> vstd::std_specs::convert::FromSpecImpl<Error<V>> for Box<ErrorImpl<V>> {
    open spec fn obeys_from_spec() -> bool {
        true
    }

    open spec fn from_spec(error: Error<V>) -> Box<ErrorImpl<V>> {
        Box::new(error@)
    }
}

} // verus!
