//! The report that shows an error with its causes and its backtrace.
use crate::backtrace::{Backtrace, BacktraceStatus};
use crate::chain::{Cause, Chain};
use crate::decimal::{decimal, Counter};
use crate::error::{Error, ErrorImpl};
use crate::format::{
    lemma_wrote_next, lemma_wrote_no_more, lemma_wrote_nothing, plain, wrote, FormatError, Shown,
    Sink,
};
use crate::value::Value;
use vstd::prelude::*;

verus! {

/// What displaying the errors of a chain writes, for each of them.
pub open spec fn texts<'a, V: Value>(causes: Seq<Cause<'a, V>>) -> Seq<Shown> {
    causes.map_values(|cause: Cause<'a, V>| cause.displayed())
}

/// A text on a line of its own.
pub open spec fn line(text: Shown) -> Shown {
    text.followed_by(plain("\n"@))
}

/// A cause with its number, on one line.
pub open spec fn numbered_line(n: nat, text: Shown) -> Shown {
    plain(decimal(n) + ": "@).followed_by(line(text))
}

/// Numbered lines, one for each cause, counted from `n`.
pub open spec fn cause_lines(n: nat, texts: Seq<Shown>) -> Shown
    decreases texts.len(),
{
    if texts.len() == 0 {
        plain(Seq::empty())
    } else {
        plain("    "@).followed_by(numbered_line(n, texts[0])).followed_by(
            cause_lines(n + 1, texts.drop_first()),
        )
    }
}

/// The part of a report that shows the causes. Several causes are numbered from
/// zero, and a single cause has no number.
pub open spec fn causes_section(texts: Seq<Shown>) -> Shown {
    if texts.len() == 0 {
        plain(Seq::empty())
    } else if texts.len() == 1 {
        plain("\nCaused by:\n    "@).followed_by(line(texts[0]))
    } else {
        plain("\nCaused by:\n    "@).followed_by(numbered_line(0, texts[0])).followed_by(
            cause_lines(1, texts.drop_first()),
        )
    }
}

/// The part of a report that shows the backtrace, if there is one.
pub open spec fn backtrace_section(backtrace: Option<&Backtrace>) -> Seq<char> {
    match backtrace {
        Some(backtrace) => match backtrace.status {
            BacktraceStatus::Captured => "\n"@ + backtrace.text@ + "\n"@,
            BacktraceStatus::Disabled => "\nBacktrace disabled; run with RUST_LIB_BACKTRACE=1 environment variable to display a backtrace\n"@,
            BacktraceStatus::Unsupported => Seq::empty(),
        },
        None => Seq::empty(),
    }
}

/// The report of an error, given what displaying the errors of its chain writes,
/// the error itself included, and its backtrace, if it has one. It ends where
/// one of the errors cannot be displayed.
pub open spec fn report(texts: Seq<Shown>, backtrace: Option<&Backtrace>) -> Shown {
    line(texts[0]).followed_by(causes_section(texts.drop_first())).followed_by(
        plain(backtrace_section(backtrace)),
    )
}

impl<V: Value> ErrorImpl<V> {
    /// The report of the error.
    pub open spec fn debugged(&self) -> Shown {
        report(texts(self.causes()), self.backtrace_of())
    }

    /// Writes the report of the error: the error, then its causes, then its
    /// backtrace, if it has one.
    pub fn debug<W: Sink>(&self, f: &mut W) -> (result: Result<(), FormatError>)
        ensures
            wrote(*old(f), *final(f), self.debugged(), result is Ok),
    {
        let ghost start = *f;
        let ghost all = texts(self.causes());
        let ghost first = line(all[0]);
        let ghost causes = causes_section(all.drop_first());
        let ghost last = plain(backtrace_section(self.backtrace_of()));
        let mut chain = self.chain();
        let _ = chain.next();
        assert(texts(chain@) =~= all.drop_first());

        match write_line(&Cause::Object(self.error()), f) {
            Ok(()) => {},
            Err(error) => {
                proof {
                    lemma_wrote_no_more(start, *f, first, causes);
                    lemma_wrote_no_more(start, *f, first.followed_by(causes), last);
                }
                return Err(error);
            },
        }
        let ghost mid = *f;
        match debug_causes(chain, f) {
            Ok(()) => {},
            Err(error) => {
                proof {
                    lemma_wrote_next(start, mid, *f, first, causes, false);
                    lemma_wrote_no_more(start, *f, first.followed_by(causes), last);
                }
                return Err(error);
            },
        }
        proof {
            lemma_wrote_next(start, mid, *f, first, causes, true);
        }
        let ghost mid = *f;
        let result = debug_backtrace(self.find_backtrace(), f);
        proof {
            lemma_wrote_next(start, mid, *f, first.followed_by(causes), last, result is Ok);
        }
        result
    }
}

impl<V: Value> Error<V> {
    /// Writes the report of the error.
    pub fn debug<W: Sink>(&self, f: &mut W) -> (result: Result<(), FormatError>)
        ensures
            wrote(*old(f), *final(f), self@.debugged(), result is Ok),
    {
        self.inner().debug(f)
    }
}

/// Displays an error on a line of its own.
fn write_line<'a, V: Value, W: Sink>(error: &Cause<'a, V>, f: &mut W) -> (result: Result<
    (),
    FormatError,
>)
    ensures
        wrote(*old(f), *final(f), line(error.displayed()), result is Ok),
{
    let ghost start = *f;
    match error.display(f) {
        Ok(()) => {},
        Err(failure) => {
            proof {
                lemma_wrote_no_more(start, *f, error.displayed(), plain("\n"@));
            }
            return Err(failure);
        },
    }
    let ghost mid = *f;
    let result = f.write_str("\n");
    proof {
        lemma_wrote_next(start, mid, *f, error.displayed(), plain("\n"@), result is Ok);
    }
    result
}

/// Displays an error with its number, on one line.
fn write_numbered_line<'a, V: Value, W: Sink>(
    n: &Counter,
    error: &Cause<'a, V>,
    f: &mut W,
) -> (result: Result<(), FormatError>)
    ensures
        wrote(*old(f), *final(f), numbered_line(n@, error.displayed()), result is Ok),
{
    let ghost start = *f;
    let ghost digits = plain(decimal(n@));
    let ghost colon = plain(": "@);
    let ghost last = line(error.displayed());
    let mut number = String::new();
    n.write(&mut number);
    assert(number@ =~= decimal(n@));
    assert(digits.followed_by(colon) == plain(decimal(n@) + ": "@));
    match f.write_str(number.as_str()) {
        Ok(()) => {},
        Err(failure) => {
            proof {
                lemma_wrote_no_more(start, *f, digits, colon);
                lemma_wrote_no_more(start, *f, digits.followed_by(colon), last);
            }
            return Err(failure);
        },
    }
    let ghost mid = *f;
    match f.write_str(": ") {
        Ok(()) => {},
        Err(failure) => {
            proof {
                lemma_wrote_next(start, mid, *f, digits, colon, false);
                lemma_wrote_no_more(start, *f, digits.followed_by(colon), last);
            }
            return Err(failure);
        },
    }
    proof {
        lemma_wrote_next(start, mid, *f, digits, colon, true);
    }
    let ghost mid = *f;
    let result = write_line(error, f);
    proof {
        lemma_wrote_next(start, mid, *f, digits.followed_by(colon), last, result is Ok);
    }
    result
}

/// Writes the part of a report that shows the causes which `chain` yields.
fn debug_causes<'a, V: Value, W: Sink>(chain: Chain<'a, V>, f: &mut W) -> (result: Result<
    (),
    FormatError,
>)
    ensures
        wrote(*old(f), *final(f), causes_section(texts(chain@)), result is Ok),
{
    let ghost start = *f;
    let ghost all = texts(chain@);
    let mut chain = chain;
    let error = match chain.next() {
        Some(error) => error,
        None => {
            proof {
                lemma_wrote_nothing(*f);
            }
            return Ok(());
        },
    };
    let peeked = chain.next();
    let ghost head = plain("\nCaused by:\n    "@);
    let ghost first = if peeked is Some {
        numbered_line(0, error.displayed())
    } else {
        line(error.displayed())
    };
    let ghost tail = cause_lines(1, all.drop_first());
    proof {
        assert(all.drop_first() =~= texts(pending(peeked, chain@)));
        if peeked is None {
            assert(head.followed_by(first).followed_by(tail) =~= head.followed_by(first));
        }
        assert(causes_section(all) == head.followed_by(first).followed_by(tail));
    }
    match f.write_str("\nCaused by:\n    ") {
        Ok(()) => {},
        Err(failure) => {
            proof {
                lemma_wrote_no_more(start, *f, head, first);
                lemma_wrote_no_more(start, *f, head.followed_by(first), tail);
            }
            return Err(failure);
        },
    }
    let ghost mid = *f;
    let n = Counter::new();
    let written = if peeked.is_some() {
        write_numbered_line(&n, &error, f)
    } else {
        write_line(&error, f)
    };
    proof {
        lemma_wrote_next(start, mid, *f, head, first, written is Ok);
    }
    match written {
        Ok(()) => {},
        Err(failure) => {
            proof {
                lemma_wrote_no_more(start, *f, head.followed_by(first), tail);
            }
            return Err(failure);
        },
    }
    let ghost mid = *f;
    let result = debug_cause_lines(n.next(), peeked, chain, f);
    proof {
        lemma_wrote_next(start, mid, *f, head.followed_by(first), tail, result is Ok);
    }
    result
}

/// Writes numbered lines, counted from `n`, for the cause that has been looked
/// at already and for those which `rest` yields.
fn debug_cause_lines<'a, V: Value, W: Sink>(
    n: Counter,
    peeked: Option<Cause<'a, V>>,
    rest: Chain<'a, V>,
    f: &mut W,
) -> (result: Result<(), FormatError>)
    requires
        peeked is None ==> rest@.len() == 0,
    ensures
        wrote(
            *old(f),
            *final(f),
            cause_lines(n@, texts(pending(peeked, rest@))),
            result is Ok,
        ),
{
    let ghost start = *f;
    let ghost total = cause_lines(n@, texts(pending(peeked, rest@)));
    let mut chain = rest;
    let mut next = peeked;
    let mut count = n;
    let ghost mut done = plain(Seq::empty());
    proof {
        lemma_wrote_nothing(*f);
        assert(done.followed_by(total) =~= total);
    }
    loop
        invariant
            start == *old(f),
            total == cause_lines(n@, texts(pending(peeked, rest@))),
            wrote(start, *f, done, true),
            total == done.followed_by(cause_lines(count@, texts(pending(next, chain@)))),
            next is None ==> chain@.len() == 0,
        decreases pending(next, chain@).len(),
    {
        let error = match next {
            Some(error) => error,
            None => {
                assert(done.followed_by(plain(Seq::empty())) =~= done);
                return Ok(());
            },
        };
        let ghost here = texts(seq![error] + chain@);
        let ghost indent = plain("    "@);
        let ghost numbered = numbered_line(count@, error.displayed());
        let ghost tail = cause_lines(count@ + 1, here.drop_first());
        proof {
            assert(here[0] == error.displayed());
            assert(here.drop_first() =~= texts(chain@));
            done.lemma_grouping(indent.followed_by(numbered), tail);
            done.lemma_grouping(indent, numbered);
        }
        let ghost mid = *f;
        match f.write_str("    ") {
            Ok(()) => {},
            Err(failure) => {
                proof {
                    lemma_wrote_next(start, mid, *f, done, indent, false);
                    lemma_wrote_no_more(start, *f, done.followed_by(indent), numbered);
                    lemma_wrote_no_more(
                        start,
                        *f,
                        done.followed_by(indent).followed_by(numbered),
                        tail,
                    );
                }
                return Err(failure);
            },
        }
        proof {
            lemma_wrote_next(start, mid, *f, done, indent, true);
        }
        let ghost mid = *f;
        let written = write_numbered_line(&count, &error, f);
        proof {
            lemma_wrote_next(
                start,
                mid,
                *f,
                done.followed_by(indent),
                numbered,
                written is Ok,
            );
        }
        match written {
            Ok(()) => {},
            Err(failure) => {
                proof {
                    lemma_wrote_no_more(
                        start,
                        *f,
                        done.followed_by(indent).followed_by(numbered),
                        tail,
                    );
                }
                return Err(failure);
            },
        }
        proof {
            done = done.followed_by(indent).followed_by(numbered);
        }
        count = count.next();
        next = chain.next();
        assert(here.drop_first() =~= texts(pending(next, chain@)));
    }
}

/// What is left of a chain of which one error has been looked at already.
spec fn pending<'a, V: Value>(peeked: Option<Cause<'a, V>>, chain: Seq<Cause<'a, V>>) -> Seq<
    Cause<'a, V>,
> {
    match peeked {
        Some(cause) => seq![cause] + chain,
        None => chain,
    }
}

/// Writes the part of a report that shows the backtrace.
fn debug_backtrace<W: Sink>(backtrace: Option<&Backtrace>, f: &mut W) -> (result: Result<
    (),
    FormatError,
>)
    ensures
        wrote(*old(f), *final(f), plain(backtrace_section(backtrace)), result is Ok),
{
    let ghost start = *f;
    proof {
        lemma_wrote_nothing(start);
    }
    let backtrace = match backtrace {
        Some(backtrace) => backtrace,
        None => {
            return Ok(());
        },
    };
    match backtrace.status {
        BacktraceStatus::Captured => {
            let ghost newline = plain("\n"@);
            let ghost frames = plain(backtrace.text@);
            assert(newline.followed_by(frames).followed_by(newline) == plain(
                backtrace_section(Some(backtrace)),
            ));
            match f.write_str("\n") {
                Ok(()) => {},
                Err(failure) => {
                    proof {
                        lemma_wrote_no_more(start, *f, newline, frames);
                        lemma_wrote_no_more(start, *f, newline.followed_by(frames), newline);
                    }
                    return Err(failure);
                },
            }
            let ghost mid = *f;
            match f.write_str(backtrace.text.as_str()) {
                Ok(()) => {},
                Err(failure) => {
                    proof {
                        lemma_wrote_next(start, mid, *f, newline, frames, false);
                        lemma_wrote_no_more(start, *f, newline.followed_by(frames), newline);
                    }
                    return Err(failure);
                },
            }
            proof {
                lemma_wrote_next(start, mid, *f, newline, frames, true);
            }
            let ghost mid = *f;
            let result = f.write_str("\n");
            proof {
                lemma_wrote_next(
                    start,
                    mid,
                    *f,
                    newline.followed_by(frames),
                    newline,
                    result is Ok,
                );
            }
            result
        },
        BacktraceStatus::Disabled => f.write_str(
            "\nBacktrace disabled; run with RUST_LIB_BACKTRACE=1 environment variable to display a backtrace\n",
        ),
        BacktraceStatus::Unsupported => Ok(()),
    }
}

} // verus!
