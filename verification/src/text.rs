//! Numbers as text, for messages and log records.

use vstd::prelude::*;
use vstd::string::*;

verus! {

/// The character for a digit below sixteen, letters in upper case.
pub open spec fn digit_char(d: int) -> char {
    if d == 0 {
        '0'
    } else if d == 1 {
        '1'
    } else if d == 2 {
        '2'
    } else if d == 3 {
        '3'
    } else if d == 4 {
        '4'
    } else if d == 5 {
        '5'
    } else if d == 6 {
        '6'
    } else if d == 7 {
        '7'
    } else if d == 8 {
        '8'
    } else if d == 9 {
        '9'
    } else if d == 10 {
        'A'
    } else if d == 11 {
        'B'
    } else if d == 12 {
        'C'
    } else if d == 13 {
        'D'
    } else if d == 14 {
        'E'
    } else {
        'F'
    }
}

/// A number in decimal, without leading zeros.
pub open spec fn decimal(n: nat) -> Seq<char>
    decreases n,
{
    if n < 10 {
        seq![digit_char(n as int)]
    } else {
        decimal(n / 10).push(digit_char((n % 10) as int))
    }
}

/// A sixteen-bit word as four hexadecimal digits, letters in upper case.
pub open spec fn hex4(value: u16) -> Seq<char> {
    seq![
        digit_char(value as int / 0x1000),
        digit_char((value as int / 0x100) % 0x10),
        digit_char((value as int / 0x10) % 0x10),
        digit_char(value as int % 0x10),
    ]
}

fn digit_str(d: u8) -> (s: &'static str)
    requires
        d < 16,
    ensures
        s@ == seq![digit_char(d as int)],
{
    proof {
        reveal_strlit("0");
        reveal_strlit("1");
        reveal_strlit("2");
        reveal_strlit("3");
        reveal_strlit("4");
        reveal_strlit("5");
        reveal_strlit("6");
        reveal_strlit("7");
        reveal_strlit("8");
        reveal_strlit("9");
        reveal_strlit("A");
        reveal_strlit("B");
        reveal_strlit("C");
        reveal_strlit("D");
        reveal_strlit("E");
        reveal_strlit("F");
    }
    let s = match d {
        0 => "0",
        1 => "1",
        2 => "2",
        3 => "3",
        4 => "4",
        5 => "5",
        6 => "6",
        7 => "7",
        8 => "8",
        9 => "9",
        10 => "A",
        11 => "B",
        12 => "C",
        13 => "D",
        14 => "E",
        _ => "F",
    };
    assert(s@ =~= seq![digit_char(d as int)]);
    s
}

/// Writes a number in decimal.
pub fn to_decimal(n: u64) -> (text: String)
    ensures
        text@ == decimal(n as nat),
{
    let mut text = String::from_str(digit_str((n % 10) as u8));
    let mut rest = n / 10;
    assert(text@ =~= seq![digit_char((n % 10) as int)]);
    while rest > 0
        invariant
            rest > 0 ==> decimal(n as nat) == decimal(rest as nat) + text@,
            rest == 0 ==> decimal(n as nat) == text@,
        decreases rest,
    {
        let digit = digit_str((rest % 10) as u8);
        let ghost tail = text@;
        text = String::from_str(digit).concat(text.as_str());
        proof {
            assert(text@ =~= seq![digit_char((rest % 10) as int)] + tail);
            if rest >= 10 {
                assert(decimal(rest as nat) + tail =~= decimal((rest / 10) as nat) + text@);
            } else {
                assert(decimal(rest as nat) + tail =~= text@);
            }
        }
        rest = rest / 10;
    }
    text
}

/// Writes a sixteen-bit word as four hexadecimal digits.
pub fn to_hex4(value: u16) -> (text: String)
    ensures
        text@ == hex4(value),
{
    let mut text = String::from_str(digit_str((value / 0x1000) as u8));
    text.append(digit_str(((value / 0x100) % 0x10) as u8));
    text.append(digit_str(((value / 0x10) % 0x10) as u8));
    text.append(digit_str((value % 0x10) as u8));
    assert(text@ =~= hex4(value));
    text
}

} // verus!
