//! Decimal numbers in text.

use vstd::prelude::*;

use crate::text::{char_is_digit, chars_of, is_digit};

verus! {

/// The digit for a value below ten.
pub open spec fn digit_char(n: nat) -> char {
    (48 + n) as char
}

/// The decimal digits of `n`, without leading zeros.
pub open spec fn decimal(n: nat) -> Seq<char>
    decreases n,
{
    if n < 10 {
        seq![digit_char(n)]
    } else {
        decimal(n / 10).push(digit_char(n % 10))
    }
}

pub fn decimal_text(n: u64) -> (r: String)
    ensures
        r@ == decimal(n as nat),
    decreases n,
{
    if n < 10 {
        let mut out = String::new();
        out.push((48 + n as u8) as char);
        out
    } else {
        let mut out = decimal_text(n / 10);
        out.push((48 + (n % 10) as u8) as char);
        out
    }
}

/// Why a text is no unsigned 64-bit number.
#[derive(Clone, Copy, Debug, PartialEq, Eq, Structural)]
pub enum NumberError {
    Empty,
    InvalidDigit,
    TooLarge,
}

impl View for NumberError {
    type V = NumberError;

    open spec fn view(&self) -> NumberError {
        *self
    }
}

impl NumberError {
    pub open spec fn text(self) -> Seq<char> {
        match self {
            NumberError::Empty => "cannot parse integer from empty string"@,
            NumberError::InvalidDigit => "invalid digit found in string"@,
            NumberError::TooLarge => "number too large to fit in target type"@,
        }
    }

    pub fn message(&self) -> (r: String)
        ensures
            r@ == self.text(),
    {
        match self {
            NumberError::Empty => "cannot parse integer from empty string".to_owned(),
            NumberError::InvalidDigit => "invalid digit found in string".to_owned(),
            NumberError::TooLarge => "number too large to fit in target type".to_owned(),
        }
    }
}

/// Reads digits from the left, with `value` already read; the first digit that does not fit
/// decides the error.
pub open spec fn read_digits(s: Seq<char>, value: nat) -> Result<u64, NumberError>
    decreases s.len(),
{
    if s.len() == 0 {
        Ok(value as u64)
    } else if !is_digit(s[0]) {
        Err(NumberError::InvalidDigit)
    } else if value * 10 + (s[0] as nat - 48) > u64::MAX {
        Err(NumberError::TooLarge)
    } else {
        read_digits(s.drop_first(), (value * 10 + (s[0] as nat - 48)) as nat)
    }
}

/// The number that a text stands for: digits, with one `+` allowed in front.
pub open spec fn parsed_u64(s: Seq<char>) -> Result<u64, NumberError> {
    if s.len() == 0 {
        Err(NumberError::Empty)
    } else if s[0] == '+' && s.len() > 1 {
        read_digits(s.drop_first(), 0)
    } else {
        read_digits(s, 0)
    }
}

pub fn parse_u64(s: &str) -> (r: Result<u64, NumberError>)
    ensures
        r == parsed_u64(s@),
{
    let chars = chars_of(s);
    if chars.len() == 0 {
        return Err(NumberError::Empty);
    }
    let start: usize = if chars[0] == '+' && chars.len() > 1 {
        1
    } else {
        0
    };
    let mut i: usize = start;
    let mut value: u64 = 0;
    proof {
        assert(s@.skip(0) =~= s@);
        assert(s@.skip(1) =~= s@.drop_first());
    }
    while i < chars.len()
        invariant
            chars@ == s@,
            i <= chars@.len(),
            read_digits(s@.skip(i as int), value as nat) == parsed_u64(s@),
        decreases chars@.len() - i,
    {
        let c = chars[i];
        proof {
            assert(s@.skip(i as int).drop_first() =~= s@.skip(i as int + 1));
            assert(s@.skip(i as int)[0] == c);
        }
        if !char_is_digit(c) {
            return Err(NumberError::InvalidDigit);
        }
        let digit: u64 = (c as u8 - 48) as u64;
        if value > (u64::MAX - digit) / 10 {
            return Err(NumberError::TooLarge);
        }
        value = value * 10 + digit;
        i = i + 1;
    }
    Ok(value)
}

/// Reading back the decimal text of a number gives the number.
pub proof fn law_decimal_round_trip(n: u64)
    ensures
        parsed_u64(decimal(n as nat)) == Ok::<u64, NumberError>(n),
{
    lemma_decimal_digits(n as nat);
    lemma_read_decimal(n as nat, Seq::empty());
    assert(decimal(n as nat) + Seq::<char>::empty() =~= decimal(n as nat));
}

proof fn lemma_decimal_digits(n: nat)
    ensures
        decimal(n).len() > 0,
        forall|i: int| 0 <= i < decimal(n).len() ==> is_digit(#[trigger] decimal(n)[i]),
    decreases n,
{
    if n >= 10 {
        lemma_decimal_digits(n / 10);
    }
}

proof fn lemma_read_decimal(n: nat, rest: Seq<char>)
    requires
        n <= u64::MAX,
    ensures
        read_digits(decimal(n) + rest, 0) == read_digits(rest, n),
    decreases n,
{
    if n < 10 {
        let s = decimal(n) + rest;
        assert(s[0] == digit_char(n));
        assert(s.drop_first() =~= rest);
    } else {
        let tail = seq![digit_char(n % 10)] + rest;
        assert(decimal(n) + rest =~= decimal(n / 10) + tail);
        lemma_read_decimal(n / 10, tail);
        assert(tail.drop_first() =~= rest);
        assert(tail[0] == digit_char(n % 10));
    }
}

} // verus!
