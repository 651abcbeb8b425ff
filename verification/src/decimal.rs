//! Numbers written out in decimal digits.

use vstd::prelude::*;
use vstd::string::*;

verus! {

/// The character for a digit from 0 to 9.
pub open spec fn digit_char(digit: nat) -> char {
    if digit == 0 {
        '0'
    } else if digit == 1 {
        '1'
    } else if digit == 2 {
        '2'
    } else if digit == 3 {
        '3'
    } else if digit == 4 {
        '4'
    } else if digit == 5 {
        '5'
    } else if digit == 6 {
        '6'
    } else if digit == 7 {
        '7'
    } else if digit == 8 {
        '8'
    } else {
        '9'
    }
}

/// A number in decimal digits, the most significant first, without
/// leading zeros; zero is the single digit `0`.
pub open spec fn decimal(n: nat) -> Seq<char>
    decreases n,
{
    if n < 10 {
        seq![digit_char(n)]
    } else {
        decimal(n / 10).push(digit_char(n % 10))
    }
}

/// The characters of digits that are given least significant first.
pub open spec fn digits_reversed(low: Seq<u8>) -> Seq<char> {
    Seq::new(low.len(), |i: int| digit_char(low[low.len() - 1 - i] as nat))
}

/// The text of one digit.
pub fn digit_str(digit: u8) -> (text: &'static str)
    requires
        digit < 10,
    ensures
        text@ == seq![digit_char(digit as nat)],
{
    proof {
        reveal_strlit("0");
        reveal_strlit("1");
        reveal_strlit("2");
        reveal_strlit("3");
        reveal_strlit("4");
        reveal_strlit("5");
        reveal_strlit("6");
        reveal_strlit("7");
        reveal_strlit("8");
        reveal_strlit("9");
    }
    let text = if digit == 0 {
        "0"
    } else if digit == 1 {
        "1"
    } else if digit == 2 {
        "2"
    } else if digit == 3 {
        "3"
    } else if digit == 4 {
        "4"
    } else if digit == 5 {
        "5"
    } else if digit == 6 {
        "6"
    } else if digit == 7 {
        "7"
    } else if digit == 8 {
        "8"
    } else {
        "9"
    };
    assert(text@ =~= seq![digit_char(digit as nat)]);
    text
}

/// The decimal digits of a number as values from 0 to 9, the least
/// significant first.
pub fn low_digits(n: u64) -> (low: Vec<u8>)
    ensures
        digits_reversed(low@) == decimal(n as nat),
        low@.len() == decimal(n as nat).len(),
        forall|i: int| 0 <= i < low@.len() ==> low@[i] < 10,
{
    let mut low: Vec<u8> = Vec::new();
    let mut rest: u64 = n;
    assert(digits_reversed(low@) =~= Seq::<char>::empty());
    while rest >= 10
        invariant
            decimal(n as nat) =~= decimal(rest as nat) + digits_reversed(low@),
            forall|i: int| 0 <= i < low@.len() ==> low@[i] < 10,
        decreases rest,
    {
        let digit = (rest % 10) as u8;
        let ghost before = low@;
        low.push(digit);
        assert(digits_reversed(low@) =~= seq![digit_char(digit as nat)] + digits_reversed(before));
        rest = rest / 10;
    }
    let ghost before = low@;
    low.push(rest as u8);
    assert(digits_reversed(low@) =~= seq![digit_char(rest as nat)] + digits_reversed(before));
    assert(digits_reversed(low@) =~= decimal(n as nat));
    low
}

/// A number written out in decimal digits.
pub fn to_decimal(n: u64) -> (text: String)
    ensures
        text@ == decimal(n as nat),
{
    let low = low_digits(n);
    let len = low.len();
    let mut text = String::new();
    let mut i: usize = 0;
    while i < len
        invariant
            i <= len,
            len == low@.len(),
            forall|k: int| 0 <= k < low@.len() ==> low@[k] < 10,
            text@ =~= digits_reversed(low@).take(i as int),
        decreases len - i,
    {
        text.append(digit_str(low[len - 1 - i]));
        i += 1;
    }
    assert(digits_reversed(low@).take(len as int) =~= digits_reversed(low@));
    text
}

} // verus!
