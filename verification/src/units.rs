//! Numbers and sizes as texts.

use crate::rounding;
use vstd::prelude::*;

verus! {

/// The character of a decimal digit.
pub open spec fn digit_char(digit: int) -> char {
    (48 + digit) as char
}

/// A number in decimal notation.
pub open spec fn decimal(number: nat) -> Seq<char>
    decreases number,
{
    if number < 10 {
        seq![digit_char(number as int)]
    } else {
        decimal(number / 10).push(digit_char((number % 10) as int))
    }
}

/// The unit in which a number of bytes is shown: how many times 1024 goes into it, from bytes up
/// to terabytes.
pub open spec fn unit_index(bytes: nat) -> nat {
    if bytes < 0x400 {
        0
    } else if bytes < 0x10_0000 {
        1
    } else if bytes < 0x4000_0000 {
        2
    } else if bytes < 0x100_0000_0000 {
        3
    } else {
        4
    }
}

/// The number of bytes in a unit.
pub open spec fn unit_size(unit: nat) -> nat {
    if unit == 0 {
        1
    } else if unit == 1 {
        0x400
    } else if unit == 2 {
        0x10_0000
    } else if unit == 3 {
        0x4000_0000
    } else {
        0x100_0000_0000
    }
}

/// The name of a unit.
pub open spec fn unit_name(unit: nat) -> Seq<char> {
    if unit == 0 {
        "Bytes"@
    } else if unit == 1 {
        "KB"@
    } else if unit == 2 {
        "MB"@
    } else if unit == 3 {
        "GB"@
    } else {
        "TB"@
    }
}

/// A number of hundredths with two decimal places.
pub open spec fn two_places(hundredths: nat) -> Seq<char> {
    decimal(hundredths / 100) + "."@ + decimal((hundredths / 10) % 10) + decimal(hundredths % 10)
}

/// A number of bytes in the unit that suits it, with two decimal places.
pub open spec fn bytes_text(bytes: nat) -> Seq<char> {
    if bytes == 0 {
        "0 Bytes"@
    } else {
        let unit = unit_index(bytes);
        two_places(
            rounding::round_half_even(rounding::nearest_double(bytes) * 100, unit_size(unit)),
        ) + " "@
            + unit_name(unit)
    }
}

/// The speed that is shown for a chunk, if time has passed since the chunk before it.
pub open spec fn speed_text(elapsed: Option<u128>, rate: usize) -> Option<Seq<char>> {
    match elapsed {
        Some(_) => Some(bytes_text(rate as nat) + "/s"@),
        None => None,
    }
}

fn digit_text(digit: u8) -> (text: &'static str)
    requires
        digit < 10,
    ensures
        text@ == seq![digit_char(digit as int)],
{
    proof {
        reveal_strlit("0");
        reveal_strlit("1");
        reveal_strlit("2");
        reveal_strlit("3");
        reveal_strlit("4");
        reveal_strlit("5");
        reveal_strlit("6");
        reveal_strlit("7");
        reveal_strlit("8");
        reveal_strlit("9");
    }
    let text = match digit {
        0 => "0",
        1 => "1",
        2 => "2",
        3 => "3",
        4 => "4",
        5 => "5",
        6 => "6",
        7 => "7",
        8 => "8",
        _ => "9",
    };
    assert(text@ =~= seq![digit_char(digit as int)]);
    text
}

/// Writes a number in decimal notation.
pub fn decimal_text(number: u128) -> (text: String)
    ensures
        text@ == decimal(number as nat),
    decreases number,
{
    if number < 10 {
        digit_text(number as u8).to_string()
    } else {
        let mut text = decimal_text(number / 10);
        text.append(digit_text((number % 10) as u8));
        assert(text@ =~= decimal(number as nat));
        text
    }
}

/// Writes a number of bytes in the unit that suits it.
pub fn format_bytes(bytes: usize) -> (text: String)
    ensures
        text@ == bytes_text(bytes as nat),
{
    if bytes == 0 {
        return "0 Bytes".to_string();
    }
    let number: u64 = bytes as u64;
    let (size, name): (u128, &'static str) = if number < 0x400 {
        (1, "Bytes")
    } else if number < 0x10_0000 {
        (0x400, "KB")
    } else if number < 0x4000_0000 {
        (0x10_0000, "MB")
    } else if number < 0x100_0000_0000 {
        (0x4000_0000, "GB")
    } else {
        (0x100_0000_0000, "TB")
    };
    let nearest: u128 = rounding::find_nearest_double(number);
    let hundredths: u128 = rounding::round_to_even(nearest * 100, size);
    let mut text = decimal_text(hundredths / 100);
    text.append(".");
    text.append(digit_text(((hundredths / 10) % 10) as u8));
    text.append(digit_text((hundredths % 10) as u8));
    text.append(" ");
    text.append(name);
    text
}

/// Writes the speed that is shown for a chunk. `rate` is the number of bytes per second, which
/// counts only if there is a time in which they were sent.
pub fn compute_speed_text(elapsed: Option<u128>, rate: usize) -> (text: Option<String>)
    ensures
        match text {
            Some(text) => speed_text(elapsed, rate) == Some(text@),
            None => speed_text(elapsed, rate) is None,
        },
{
    match elapsed {
        Some(_) => {
            let mut text = format_bytes(rate);
            text.append("/s");
            Some(text)
        },
        None => None,
    }
}

} // verus!
