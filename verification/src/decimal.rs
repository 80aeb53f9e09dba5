//! Integers written in decimal, and read back.

use vstd::prelude::*;
use vstd::string::*;

verus! {

/// The character of a digit.
pub open spec fn digit(d: int) -> char {
    (48 + d) as char
}

/// A natural number in decimal, without leading zeros.
pub open spec fn natural(n: nat) -> Seq<char>
    decreases n,
{
    if n < 10 {
        seq![digit(n as int)]
    } else {
        natural(n / 10).push(digit((n % 10) as int))
    }
}

/// An integer in decimal, with a minus sign where it is negative.
pub open spec fn decimal(i: int) -> Seq<char> {
    if i < 0 {
        seq!['-'] + natural((-i) as nat)
    } else {
        natural(i as nat)
    }
}

/// At least one character, and digits only.
pub open spec fn is_digits(s: Seq<char>) -> bool {
    &&& s.len() > 0
    &&& forall|i: int| 0 <= i < s.len() ==> '0' <= #[trigger] s[i] <= '9'
}

/// The number that a string of digits stands for.
pub open spec fn digits_value(s: Seq<char>) -> int
    decreases s.len(),
{
    if s.len() == 0 {
        0
    } else {
        10 * digits_value(s.drop_last()) + (s.last() as int - 48)
    }
}

/// The integer that a text stands for: an optional sign, then digits and nothing else.
pub open spec fn decimal_value(s: Seq<char>) -> Option<int> {
    if s.len() > 0 && s[0] == '-' {
        if is_digits(s.skip(1)) {
            Some(-digits_value(s.skip(1)))
        } else {
            None
        }
    } else if s.len() > 0 && s[0] == '+' {
        if is_digits(s.skip(1)) {
            Some(digits_value(s.skip(1)))
        } else {
            None
        }
    } else if is_digits(s) {
        Some(digits_value(s))
    } else {
        None
    }
}

/// The text of the error with which the standard library refuses to read an `i32`.
pub uninterp spec fn i32_error(text: Seq<char>) -> Seq<char>;

/// The text of the error with which the standard library refuses to read an `i64`.
pub uninterp spec fn i64_error(text: Seq<char>) -> Seq<char>;

/// What reading an `i32` gives: the integer that the text stands for, where it fits.
pub open spec fn read_i32(text: Seq<char>) -> Result<i32, Seq<char>> {
    match decimal_value(text) {
        Some(v) if i32::MIN <= v <= i32::MAX => Ok(v as i32),
        _ => Err(i32_error(text)),
    }
}

/// What reading an `i64` gives: the integer that the text stands for, where it fits.
pub open spec fn read_i64(text: Seq<char>) -> Result<i64, Seq<char>> {
    match decimal_value(text) {
        Some(v) if i64::MIN <= v <= i64::MAX => Ok(v as i64),
        _ => Err(i64_error(text)),
    }
}

/// `str::parse::<i32>`: reads an optional sign followed by digits only, and refuses every
/// other text and every number that an `i32` cannot hold, with an error that depends on the
/// text alone. How the error reads is not said.
#[verifier::external_body]
pub(crate) fn parse_i32(text: &str) -> (read: Result<i32, String>)
    ensures
        match read {
            Ok(v) => decimal_value(text@) == Some(v as int),
            Err(e) => e@ == i32_error(text@) && !({
                &&& decimal_value(text@) matches Some(v)
                &&& i32::MIN <= v <= i32::MAX
            }),
        },
{
    match text.parse::<i32>() {
        Ok(v) => Ok(v),
        Err(e) => Err(e.to_string()),
    }
}

/// `str::parse::<i64>`: reads an optional sign followed by digits only, and refuses every
/// other text and every number that an `i64` cannot hold, with an error that depends on the
/// text alone. How the error reads is not said.
#[verifier::external_body]
pub(crate) fn parse_i64(text: &str) -> (read: Result<i64, String>)
    ensures
        match read {
            Ok(v) => decimal_value(text@) == Some(v as int),
            Err(e) => e@ == i64_error(text@) && !({
                &&& decimal_value(text@) matches Some(v)
                &&& i64::MIN <= v <= i64::MAX
            }),
        },
{
    match text.parse::<i64>() {
        Ok(v) => Ok(v),
        Err(e) => Err(e.to_string()),
    }
}

/// The text of one digit.
fn digit_text(d: u64) -> (text: &'static str)
    requires
        d < 10,
    ensures
        text@ == seq![digit(d as int)],
{
    proof {
        reveal_strlit("0");
        reveal_strlit("1");
        reveal_strlit("2");
        reveal_strlit("3");
        reveal_strlit("4");
        reveal_strlit("5");
        reveal_strlit("6");
        reveal_strlit("7");
        reveal_strlit("8");
        reveal_strlit("9");
    }
    match d {
        0 => "0",
        1 => "1",
        2 => "2",
        3 => "3",
        4 => "4",
        5 => "5",
        6 => "6",
        7 => "7",
        8 => "8",
        _ => "9",
    }
}

/// Writes a natural number in decimal.
pub fn natural_text(n: u64) -> (text: String)
    ensures
        text@ == natural(n as nat),
    decreases n,
{
    if n < 10 {
        digit_text(n).to_owned()
    } else {
        let mut text = natural_text(n / 10);
        text.append(digit_text(n % 10));
        assert(text@ =~= natural(n as nat));
        text
    }
}

/// Writes an integer in decimal.
pub fn decimal_text(i: i64) -> (text: String)
    ensures
        text@ == decimal(i as int),
{
    if i < 0 {
        proof {
            reveal_strlit("-");
        }
        let mut text = "-".to_owned();
        text.append(natural_text((-(i as i128)) as u64).as_str());
        assert(text@ =~= decimal(i as int));
        text
    } else {
        natural_text(i as u64)
    }
}

/// What is written as a natural number is read back as the same number.
pub proof fn lemma_natural_round_trip(n: nat)
    ensures
        is_digits(natural(n)),
        digits_value(natural(n)) == n,
    decreases n,
{
    if n < 10 {
        let s = natural(n);
        assert(s.drop_last() =~= Seq::<char>::empty());
        assert(s.last() == digit(n as int));
        assert(digits_value(s.drop_last()) == 0);
    } else {
        lemma_natural_round_trip(n / 10);
        assert(natural(n).drop_last() =~= natural(n / 10));
    }
}

/// What is written in decimal is read back as the same integer.
pub proof fn law_decimal_round_trip(i: int)
    ensures
        decimal_value(decimal(i)) == Some(i),
        i32::MIN <= i <= i32::MAX ==> read_i32(decimal(i)) == Ok::<i32, Seq<char>>(i as i32),
        i64::MIN <= i <= i64::MAX ==> read_i64(decimal(i)) == Ok::<i64, Seq<char>>(i as i64),
{
    if i < 0 {
        lemma_natural_round_trip((-i) as nat);
        assert(decimal(i).skip(1) =~= natural((-i) as nat));
    } else {
        lemma_natural_round_trip(i as nat);
        let s = natural(i as nat);
        assert('0' <= s[0] <= '9');
    }
}

/// Different integers are written differently.
pub proof fn law_decimal_injective(i: int, j: int)
    requires
        decimal(i) == decimal(j),
    ensures
        i == j,
{
    law_decimal_round_trip(i);
    law_decimal_round_trip(j);
}

} // verus!
