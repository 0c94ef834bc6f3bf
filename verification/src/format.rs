//! Writing text to a sink, either of which can fail.
use vstd::prelude::*;

verus! {

/// Formatting has failed: the sink has refused a text, or a value could not be
/// formatted.
#[derive(Clone, Copy, Debug, PartialEq, Eq, Structural)]
pub struct FormatError;

/// What takes text.
///
/// The spec functions say what becomes of the text. They are left open here; an
/// impl that is verified says what they are.
pub trait Sink: Sized {
    /// The text that has been written so far.
    open spec fn written(&self) -> Seq<char> {
        arbitrary()
    }

    /// How many writes have failed so far.
    open spec fn failures(&self) -> nat {
        arbitrary()
    }

    /// Writes a text, or fails after some part of it, possibly none.
    fn write_str(&mut self, text: &str) -> (result: Result<(), FormatError>)
        ensures
            match result {
                Ok(_) => {
                    &&& final(self).failures() == old(self).failures()
                    &&& final(self).written() == old(self).written() + text@
                },
                Err(_) => {
                    &&& final(self).failures() == old(self).failures() + 1
                    &&& old(self).written().is_prefix_of(final(self).written())
                    &&& final(self).written().is_prefix_of(old(self).written() + text@)
                },
            },
    ;
}

impl Sink for String {
    open spec fn written(&self) -> Seq<char> {
        self@
    }

    /// A string takes any text.
    open spec fn failures(&self) -> nat {
        0
    }

    fn write_str(&mut self, text: &str) -> (result: Result<(), FormatError>) {
        self.append(text);
        Ok(())
    }
}

/// What formatting comes to where the sink takes everything: the text that is
/// written, and whether it is all of the text or ends where formatting failed.
#[verifier::ext_equal]
pub struct Shown {
    pub text: Seq<char>,
    pub ok: bool,
}

/// A text that is written without fail.
pub open spec fn plain(text: Seq<char>) -> Shown {
    Shown { text, ok: true }
}

impl Shown {
    /// One thing written after another, unless the first one failed.
    pub open spec fn followed_by(self, next: Shown) -> Shown {
        if self.ok {
            Shown { text: self.text + next.text, ok: next.ok }
        } else {
            self
        }
    }

    /// This ends with a failure within the text of `full`, or at its end.
    pub open spec fn cut_short(self, full: Shown) -> bool {
        &&& !self.ok
        &&& self.text.is_prefix_of(full.text)
    }

    /// What is cut short stays so, whatever would follow.
    pub proof fn lemma_cut_before(self, full: Shown, next: Shown, last: Shown)
        requires
            self.cut_short(full),
        ensures
            self.followed_by(next).cut_short(full.followed_by(last)),
    {
    }

    /// What ends with something that is cut short is cut short.
    pub proof fn lemma_cut_after(self, part: Shown, full: Shown)
        requires
            part.cut_short(full),
        ensures
            self.followed_by(part).cut_short(self.followed_by(full)),
    {
    }

    /// It does not matter how what is written in sequence is grouped.
    pub proof fn lemma_grouping(self, next: Shown, last: Shown)
        ensures
            self.followed_by(next).followed_by(last) == self.followed_by(next.followed_by(last)),
    {
        assert(self.followed_by(next).followed_by(last) =~= self.followed_by(
            next.followed_by(last),
        ));
    }
}

/// `shown` has been written to a sink, which was `before` and is `after` then,
/// with the given success.
///
/// If the sink took everything, all of `shown` stands there, and success is that
/// of `shown`. If the sink refused a write, that was the last one: it is a
/// failure, and some first part of the text of `shown` stands there.
pub open spec fn wrote<W: Sink>(before: W, after: W, shown: Shown, ok: bool) -> bool {
    if after.failures() == before.failures() {
        &&& after.written() == before.written() + shown.text
        &&& ok == shown.ok
    } else {
        &&& after.failures() == before.failures() + 1
        &&& before.written().is_prefix_of(after.written())
        &&& after.written().is_prefix_of(before.written() + shown.text)
        &&& !ok
    }
}

/// Writing nothing.
pub proof fn lemma_wrote_nothing<W: Sink>(sink: W)
    ensures
        wrote(sink, sink, plain(Seq::empty()), true),
{
    assert(sink.written() + Seq::<char>::empty() =~= sink.written());
}

/// Writing one thing and then another is writing the two in sequence.
pub proof fn lemma_wrote_next<W: Sink>(
    before: W,
    between: W,
    after: W,
    shown: Shown,
    next: Shown,
    ok: bool,
)
    requires
        wrote(before, between, shown, true),
        wrote(between, after, next, ok),
    ensures
        wrote(before, after, shown.followed_by(next), ok),
{
    let both = shown.followed_by(next);
    assert(before.written() + both.text =~= between.written() + next.text);
    if after.failures() != between.failures() {
        assert(before.written().is_prefix_of(after.written()));
    }
}

/// After a failure nothing more is written.
pub proof fn lemma_wrote_no_more<W: Sink>(before: W, after: W, shown: Shown, next: Shown)
    requires
        wrote(before, after, shown, false),
    ensures
        wrote(before, after, shown.followed_by(next), false),
{
    if shown.ok {
        assert(after.written().is_prefix_of(before.written() + shown.text + next.text));
        assert(before.written() + shown.text + next.text =~= before.written() + (shown.text
            + next.text));
    }
}

} // verus!
