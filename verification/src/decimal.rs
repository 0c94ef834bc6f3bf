//! Counting in decimal, without a limit.
use vstd::prelude::*;

verus! {

/// The character of a decimal digit.
pub open spec fn digit_char(digit: nat) -> char {
    (48 + digit) as char
}

/// A number in decimal notation.
pub open spec fn decimal(n: nat) -> Seq<char>
    decreases n,
{
    if n < 10 {
        seq![digit_char(n)]
    } else {
        decimal(n / 10).push(digit_char(n % 10))
    }
}

/// A natural number of any size, which can be counted up and written out.
pub struct Counter {
    /// The decimal digits, least significant first, without leading zeros.
    digits: Vec<u8>,
}

spec fn digits_value(digits: Seq<u8>) -> nat
    decreases digits.len(),
{
    if digits.len() == 0 {
        0
    } else {
        digits[0] as nat + 10 * digits_value(digits.drop_first())
    }
}

/// Every digit is a decimal digit, and the most significant one is not zero.
spec fn digits_proper(digits: Seq<u8>) -> bool {
    &&& forall|i: int| 0 <= i < digits.len() ==> #[trigger] digits[i] < 10
    &&& digits.len() > 0 ==> digits.last() != 0
}

proof fn lemma_value_positive(digits: Seq<u8>)
    requires
        digits_proper(digits),
        digits.len() > 0,
    ensures
        digits_value(digits) > 0,
    decreases digits.len(),
{
    if digits.len() > 1 {
        let rest = digits.drop_first();
        assert(rest.last() == digits.last());
        lemma_value_positive(rest);
    }
}

proof fn lemma_decimal_step(digits: Seq<u8>)
    requires
        digits_proper(digits),
        digits.len() > 1,
    ensures
        decimal(digits_value(digits)) == decimal(digits_value(digits.drop_first())).push(
            digit_char(digits[0] as nat),
        ),
{
    let rest = digits.drop_first();
    assert(rest.last() == digits.last());
    lemma_value_positive(rest);
    assert(digits[0] < 10);
    assert(digits_value(digits) / 10 == digits_value(rest));
    assert(digits_value(digits) % 10 == digits[0] as nat);
}

impl View for Counter {
    type V = nat;

    closed spec fn view(&self) -> nat {
        digits_value(self.digits@)
    }
}

impl Counter {
    #[verifier::type_invariant]
    spec fn proper(self) -> bool {
        digits_proper(self.digits@)
    }

    pub fn new() -> (counter: Counter)
        ensures
            counter@ == 0,
    {
        Counter { digits: Vec::new() }
    }

    /// The counter, counted up by one.
    pub fn next(self) -> (counter: Counter)
        ensures
            counter@ == self@ + 1,
    {
        proof {
            use_type_invariant(&self);
        }
        let mut digits = self.digits;
        increment(&mut digits, 0);
        assert(digits@.skip(0) =~= digits@);
        assert(self.digits@.skip(0) =~= self.digits@);
        Counter { digits }
    }

    /// Appends the number in decimal notation.
    pub fn write(&self, f: &mut String)
        ensures
            final(f)@ == old(f)@ + decimal(self@),
    {
        proof {
            use_type_invariant(self);
        }
        if self.digits.len() == 0 {
            f.append(digit_str(0));
        } else {
            write_digits(&self.digits, 0, f);
            assert(self.digits@.skip(0) =~= self.digits@);
        }
    }
}

/// Adds one to the digits from index `at` on.
fn increment(digits: &mut Vec<u8>, at: usize)
    requires
        at <= old(digits)@.len(),
        digits_proper(old(digits)@),
    ensures
        at <= final(digits)@.len(),
        digits_proper(final(digits)@.skip(at as int)),
        final(digits)@.skip(at as int).len() > 0,
        final(digits)@.take(at as int) == old(digits)@.take(at as int),
        digits_value(final(digits)@.skip(at as int)) == digits_value(old(digits)@.skip(at as int))
            + 1,
    decreases old(digits)@.len() - at,
{
    let ghost before = digits@;
    if at == digits.len() {
        digits.push(1);
        assert(before.skip(at as int) =~= Seq::empty());
        assert(digits@.skip(at as int) =~= seq![1u8]);
        assert(seq![1u8].drop_first() =~= Seq::empty());
        reveal_with_fuel(digits_value, 2);
    } else {
        assert(before.skip(at as int).drop_first() =~= before.skip(at + 1));
        if digits[at] < 9 {
            let digit: u8 = digits[at] + 1;
            digits.set(at, digit);
            assert(digits@.skip(at as int).drop_first() =~= before.skip(at + 1));
        } else {
            increment(digits, at + 1);
            let ghost carried = digits@;
            digits.set(at, 0);
            assert(carried.skip(at + 1) =~= digits@.skip(at as int).drop_first());
            assert(digits@.take(at as int) =~= carried.take(at + 1).take(at as int));
            assert(before.take(at + 1).take(at as int) =~= before.take(at as int));
            let ghost here = digits@.skip(at as int);
            assert forall|i: int| 0 <= i < here.len() implies #[trigger] here[i] < 10 by {
                if i > 0 {
                    assert(here[i] == carried.skip(at + 1)[i - 1]);
                }
            }
            assert(here.last() == carried.skip(at + 1).last());
        }
    }
}

/// Appends the digits from index `at` on, most significant first.
fn write_digits(digits: &Vec<u8>, at: usize, f: &mut String)
    requires
        at < digits@.len(),
        digits_proper(digits@),
    ensures
        final(f)@ == old(f)@ + decimal(digits_value(digits@.skip(at as int))),
    decreases digits@.len() - at,
{
    let ghost here = digits@.skip(at as int);
    assert(here.drop_first() =~= digits@.skip(at + 1));
    assert(here.last() == digits@.last());
    if at < digits.len() - 1 {
        write_digits(digits, at + 1, f);
        proof {
            lemma_decimal_step(here);
        }
    } else {
        assert(here.drop_first() =~= Seq::empty());
        reveal_with_fuel(digits_value, 2);
    }
    f.append(digit_str(digits[at]));
    assert(f@ =~= old(f)@ + decimal(digits_value(here)));
}

/// A number in decimal notation.
pub fn decimal_text(n: u64) -> (text: String)
    ensures
        text@ == decimal(n as nat),
    decreases n,
{
    let mut text = if n < 10 {
        String::new()
    } else {
        decimal_text(n / 10)
    };
    text.append(digit_str((n % 10) as u8));
    assert(text@ =~= decimal(n as nat));
    text
}

/// A decimal digit as a string.
fn digit_str(digit: u8) -> (text: &'static str)
    requires
        digit < 10,
    ensures
        text@ == seq![digit_char(digit as nat)],
{
    proof {
        reveal_strlit("0");
        reveal_strlit("1");
        reveal_strlit("2");
        reveal_strlit("3");
        reveal_strlit("4");
        reveal_strlit("5");
        reveal_strlit("6");
        reveal_strlit("7");
        reveal_strlit("8");
        reveal_strlit("9");
    }
    match digit {
        0 => "0",
        1 => "1",
        2 => "2",
        3 => "3",
        4 => "4",
        5 => "5",
        6 => "6",
        7 => "7",
        8 => "8",
        _ => "9",
    }
}

} // verus!
