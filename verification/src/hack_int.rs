//! Bounded integers: the legal range of addresses and literals.

use crate::text::{is_digit, to_chars};
use vstd::prelude::*;
use vstd::std_specs::convert::{FromSpecImpl, TryFromSpecImpl};

verus! {

/// The largest value a [`HackInt`] can hold.
pub const HACK_INT_MAX: u16 = 32767;

/// An integer between 0 and 32767 (inclusive): every address and every
/// literal of a program is one. A `u16` is one bit wider, so the bound is
/// kept as an invariant of the type.
#[derive(Clone, Copy, Debug, PartialEq, Eq, Structural)]
pub struct HackInt(u16);

/// Why a text or a number is no [`HackInt`].
#[derive(Clone, Copy, Debug, PartialEq, Eq, Structural)]
pub enum ParseHackIntError {
    /// The number lies above the bound.
    SizeExceeded,
    /// The text is no decimal number.
    ParseInt,
}

impl View for HackInt {
    type V = int;

    closed spec fn view(&self) -> int {
        self.0 as int
    }
}

/// What the digit `c` counts for.
pub open spec fn digit_value(c: char) -> int {
    c as int - '0' as int
}

/// The number that a sequence of decimal digits writes, the empty sequence
/// writing zero.
pub open spec fn decimal_value(digits: Seq<char>) -> int
    decreases digits.len(),
{
    if digits.len() == 0 {
        0
    } else {
        decimal_value(digits.drop_last()) * 10 + digit_value(digits.last())
    }
}

/// Whether every character of `s` is a decimal digit.
pub open spec fn all_digits(s: Seq<char>) -> bool {
    forall|i: int| 0 <= i < s.len() ==> is_digit(#[trigger] s[i])
}

/// The text without the one `+` that may precede the digits.
pub open spec fn unsigned_part(s: Seq<char>) -> Seq<char> {
    if s.len() > 0 && s[0] == '+' {
        s.subrange(1, s.len() as int)
    } else {
        s
    }
}

/// Whether `s` writes a number: an optional `+`, then one or more decimal
/// digits and nothing else.
pub open spec fn is_number_text(s: Seq<char>) -> bool {
    let digits = unsigned_part(s);
    digits.len() > 0 && all_digits(digits)
}

/// What [`HackInt::parse`] makes of a text. A text that writes no number
/// is malformed. A text that writes one gives the range error where the
/// number lies above the bound, however large it is, and the number
/// otherwise.
pub open spec fn parse_spec(s: Seq<char>) -> Result<int, ParseHackIntError> {
    if !is_number_text(s) {
        Err(ParseHackIntError::ParseInt)
    } else if decimal_value(unsigned_part(s)) > HACK_INT_MAX {
        Err(ParseHackIntError::SizeExceeded)
    } else {
        Ok(decimal_value(unsigned_part(s)))
    }
}

/// A number written with digits only is not negative.
pub proof fn lemma_decimal_value_nonnegative(digits: Seq<char>)
    requires
        all_digits(digits),
    ensures
        0 <= decimal_value(digits),
    decreases digits.len(),
{
    if digits.len() > 0 {
        lemma_decimal_value_nonnegative(digits.drop_last());
        assert(is_digit(digits.last()));
    }
}

/// Digits always write a number: it is read as it stands where it lies
/// within the bound, and gives the range error, never the other one, where
/// it lies above.
pub proof fn law_digits_write_a_number(digits: Seq<char>)
    requires
        digits.len() > 0,
        all_digits(digits),
    ensures
        0 <= decimal_value(digits),
        parse_spec(digits) == if decimal_value(digits) > HACK_INT_MAX {
            Err::<int, ParseHackIntError>(ParseHackIntError::SizeExceeded)
        } else {
            Ok::<int, ParseHackIntError>(decimal_value(digits))
        },
{
    lemma_decimal_value_nonnegative(digits);
    assert(is_digit(digits[0]));
}

impl HackInt {
    /// Every `HackInt` that a program holds is within the bound.
    #[verifier::type_invariant]
    closed spec fn within_bound(self) -> bool {
        self.0 <= HACK_INT_MAX
    }

    /// Wraps `value`, or refuses it when it lies above the bound.
    pub fn try_new(value: u16) -> (result: Result<Self, ParseHackIntError>)
        ensures
            match result {
                Ok(h) => value <= HACK_INT_MAX && h@ == value,
                Err(e) => value > HACK_INT_MAX && e == ParseHackIntError::SizeExceeded,
            },
    {
        if value > HACK_INT_MAX {
            return Err(ParseHackIntError::SizeExceeded);
        }
        Ok(Self(value))
    }

    /// Reads a decimal number and wraps it. A text that is no number
    /// gives `ParseInt`; a number above the bound gives `SizeExceeded`.
    pub fn parse(input: &str) -> (result: Result<Self, ParseHackIntError>)
        ensures
            match result {
                Ok(h) => parse_spec(input@) == Ok::<int, ParseHackIntError>(h@),
                Err(e) => parse_spec(input@) == Err::<int, ParseHackIntError>(e),
            },
    {
        let chars = to_chars(input);
        let to: usize = chars.len();
        let start: usize = if to > 0 && chars[0] == '+' {
            1
        } else {
            0
        };
        let ghost digits = unsigned_part(input@);
        assert(digits =~= chars@.subrange(start as int, to as int));
        if start == to {
            return Err(ParseHackIntError::ParseInt);
        }
        // The number read so far, as long as it lies within the bound.
        let mut value: u16 = 0;
        let mut exceeded = false;
        let mut i: usize = start;
        while i < to
            invariant
                start <= i <= to <= chars.len(),
                digits == unsigned_part(input@),
                digits == chars@.subrange(start as int, to as int),
                all_digits(digits.take(i - start)),
                exceeded ==> decimal_value(digits.take(i - start)) > HACK_INT_MAX,
                !exceeded ==> value == decimal_value(digits.take(i - start)),
                value <= HACK_INT_MAX,
            decreases to - i,
        {
            let c = chars[i];
            if !(c >= '0' && c <= '9') {
                assert(!is_digit(digits[i - start]));
                return Err(ParseHackIntError::ParseInt);
            }
            let ghost longer = digits.take(i + 1 - start);
            assert(longer.drop_last() =~= digits.take(i - start));
            assert(longer.last() == c);
            if !exceeded {
                let next: u32 = value as u32 * 10 + (c as u32 - '0' as u32);
                if next > HACK_INT_MAX as u32 {
                    exceeded = true;
                } else {
                    value = next as u16;
                }
            }
            i += 1;
        }
        assert(digits.take(to - start) =~= digits);
        if exceeded {
            Err(ParseHackIntError::SizeExceeded)
        } else {
            Ok(Self(value))
        }
    }

    /// Wraps a value that is known to lie within the bound.
    pub(crate) fn new_unchecked(value: u16) -> (result: Self)
        requires
            value <= HACK_INT_MAX,
        ensures
            result@ == value,
    {
        Self(value)
    }

    /// The wrapped number.
    pub fn value(&self) -> (result: u16)
        ensures
            result == self@,
            result <= HACK_INT_MAX,
    {
        proof {
            use_type_invariant(self);
        }
        self.0
    }
}

impl FromSpecImpl<HackInt> for u16 {
    open spec fn obeys_from_spec() -> bool {
        true
    }

    open spec fn from_spec(v: HackInt) -> u16 {
        v@ as u16
    }
}

impl From<HackInt> for u16 {
    /// The wrapped number.
    fn from(hack_int: HackInt) -> (result: u16)
        ensures
            result == hack_int@,
            result <= HACK_INT_MAX,
    {
        hack_int.value()
    }
}

impl TryFromSpecImpl<u16> for HackInt {
    open spec fn obeys_try_from_spec() -> bool {
        false
    }

    open spec fn try_from_spec(v: u16) -> Result<Self, Self::Error> {
        arbitrary()
    }
}

impl TryFrom<u16> for HackInt {
    type Error = ParseHackIntError;

    /// Wraps `value`, or refuses it when it lies above the bound.
    fn try_from(value: u16) -> (result: Result<HackInt, ParseHackIntError>)
        ensures
            match result {
                Ok(h) => value <= HACK_INT_MAX && h@ == value,
                Err(e) => value > HACK_INT_MAX && e == ParseHackIntError::SizeExceeded,
            },
    {
        HackInt::try_new(value)
    }
}

} // verus!
