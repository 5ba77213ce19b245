//! Decimal wording of counts in messages.

use vstd::prelude::*;
use vstd::string::StringExecFns;

verus! {

/// The decimal digit `digit`, which is below ten.
pub open spec fn digit_text(digit: nat) -> Seq<char> {
    if digit == 0 {
        "0"@
    } else if digit == 1 {
        "1"@
    } else if digit == 2 {
        "2"@
    } else if digit == 3 {
        "3"@
    } else if digit == 4 {
        "4"@
    } else if digit == 5 {
        "5"@
    } else if digit == 6 {
        "6"@
    } else if digit == 7 {
        "7"@
    } else if digit == 8 {
        "8"@
    } else {
        "9"@
    }
}

/// `count` in decimal, without leading zeros.
pub open spec fn decimal_digits(count: nat) -> Seq<char>
    decreases count,
{
    if count < 10 {
        digit_text(count)
    } else {
        decimal_digits(count / 10) + digit_text(count % 10)
    }
}

/// `true` or `false`.
pub open spec fn flag_text(flag: bool) -> Seq<char> {
    if flag {
        "true"@
    } else {
        "false"@
    }
}

fn digit(value: usize) -> (text: &'static str)
    requires
        value < 10,
    ensures
        text@ == digit_text(value as nat),
{
    match value {
        0 => "0",
        1 => "1",
        2 => "2",
        3 => "3",
        4 => "4",
        5 => "5",
        6 => "6",
        7 => "7",
        8 => "8",
        _ => "9",
    }
}

/// `count` in decimal.
pub fn decimal(count: usize) -> (text: String)
    ensures
        text@ == decimal_digits(count as nat),
    decreases count,
{
    if count < 10 {
        digit(count).to_owned()
    } else {
        let mut text = decimal(count / 10);
        text.append(digit(count % 10));
        text
    }
}

/// `flag` in words.
pub fn flag_word(flag: bool) -> (text: &'static str)
    ensures
        text@ == flag_text(flag),
{
    if flag {
        "true"
    } else {
        "false"
    }
}

/// `head` followed by `tail`.
pub fn joined(head: &str, tail: &str) -> (text: String)
    ensures
        text@ == head@ + tail@,
{
    let mut text = head.to_owned();
    text.append(tail);
    text
}

} // verus!
