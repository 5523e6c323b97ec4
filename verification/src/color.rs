//! Tint colors written as six hexadecimal digits, `RRGGBB`, with or
//! without a leading `#`.

use crate::text::chars_of;
use vstd::prelude::*;

verus! {

/// The value of a hexadecimal digit, in either case.
pub open spec fn hex_digit_value(c: char) -> Option<int> {
    if '0' <= c <= '9' {
        Some(c as int - '0' as int)
    } else if 'a' <= c <= 'f' {
        Some(c as int - 'a' as int + 10)
    } else if 'A' <= c <= 'F' {
        Some(c as int - 'A' as int + 10)
    } else {
        None
    }
}

/// The channel that two hexadecimal digits spell, high digit first.
pub open spec fn hex_pair_value(high: char, low: char) -> Option<u8> {
    match (hex_digit_value(high), hex_digit_value(low)) {
        (Some(h), Some(l)) => Some((16 * h + l) as u8),
        _ => None,
    }
}

/// The text without its leading `#`, if it has one.
pub open spec fn without_hash(text: Seq<char>) -> Seq<char> {
    if text.len() > 0 && text[0] == '#' {
        text.skip(1)
    } else {
        text
    }
}

/// Six hexadecimal digits, after an optional `#`.
pub open spec fn is_hex_color(text: Seq<char>) -> bool {
    let digits = without_hash(text);
    &&& digits.len() == 6
    &&& forall|i: int| 0 <= i < 6 ==> hex_digit_value(#[trigger] digits[i]) is Some
}

/// The error for a text that is not six characters long.
pub open spec fn length_message() -> Seq<char> {
    "Hex color must be 6 characters long"@
}

/// The error for a red channel that is not two hexadecimal digits.
pub open spec fn red_message() -> Seq<char> {
    "Invalid red value"@
}

/// The error for a green channel that is not two hexadecimal digits.
pub open spec fn green_message() -> Seq<char> {
    "Invalid green value"@
}

/// The error for a blue channel that is not two hexadecimal digits.
pub open spec fn blue_message() -> Seq<char> {
    "Invalid blue value"@
}

/// What a color text parses to: its three channels, or the message that
/// names the first thing wrong with it.
pub open spec fn parsed_hex(text: Seq<char>) -> Result<(u8, u8, u8), Seq<char>> {
    let digits = without_hash(text);
    if digits.len() != 6 {
        Err(length_message())
    } else {
        match hex_pair_value(digits[0], digits[1]) {
            None => Err(red_message()),
            Some(r) => match hex_pair_value(digits[2], digits[3]) {
                None => Err(green_message()),
                Some(g) => match hex_pair_value(digits[4], digits[5]) {
                    None => Err(blue_message()),
                    Some(b) => Ok((r, g, b)),
                },
            },
        }
    }
}

/// The value of one hexadecimal digit.
fn hex_digit(c: char) -> (value: Option<u8>)
    ensures
        value matches Some(v) ==> hex_digit_value(c) == Some(v as int) && v < 16,
        value is None ==> hex_digit_value(c) is None,
{
    if '0' <= c && c <= '9' {
        Some((c as u32 - '0' as u32) as u8)
    } else if 'a' <= c && c <= 'f' {
        Some((c as u32 - 'a' as u32 + 10) as u8)
    } else if 'A' <= c && c <= 'F' {
        Some((c as u32 - 'A' as u32 + 10) as u8)
    } else {
        None
    }
}

/// The channel spelled by two hexadecimal digits.
fn hex_pair(high: char, low: char) -> (value: Option<u8>)
    ensures
        value == hex_pair_value(high, low),
{
    match hex_digit(high) {
        Some(h) => match hex_digit(low) {
            Some(l) => Some(16 * h + l),
            None => None,
        },
        None => None,
    }
}

/// Parses a color written as `RRGGBB` or `#RRGGBB` into its red, green and
/// blue channels.
///
/// The text is accepted exactly when six hexadecimal digits are left after
/// one optional leading `#` is taken away. Otherwise the error says what is
/// wrong: the length, or the first channel that is not two hexadecimal
/// digits.
pub fn hex_to_rgb(hex: &str) -> (res: Result<(u8, u8, u8), String>)
    ensures
        res is Ok <==> is_hex_color(hex@),
        match res {
            Ok(rgb) => parsed_hex(hex@) == Ok::<(u8, u8, u8), Seq<char>>(rgb),
            Err(message) => parsed_hex(hex@) == Err::<(u8, u8, u8), Seq<char>>(message@),
        },
{
    let chars = chars_of(hex);
    let start: usize = if chars.len() > 0 && chars[0] == '#' {
        1
    } else {
        0
    };
    if chars.len() - start != 6 {
        return Err(String::from_str("Hex color must be 6 characters long"));
    }
    let r = match hex_pair(chars[start], chars[start + 1]) {
        Some(r) => r,
        None => {
            return Err(String::from_str("Invalid red value"));
        },
    };
    let g = match hex_pair(chars[start + 2], chars[start + 3]) {
        Some(g) => g,
        None => {
            return Err(String::from_str("Invalid green value"));
        },
    };
    let b = match hex_pair(chars[start + 4], chars[start + 5]) {
        Some(b) => b,
        None => {
            return Err(String::from_str("Invalid blue value"));
        },
    };
    Ok((r, g, b))
}

/// The upper-case hexadecimal digit of a value below sixteen.
pub open spec fn hex_digit_char(value: int) -> char {
    seq!['0', '1', '2', '3', '4', '5', '6', '7', '8', '9', 'A', 'B', 'C', 'D', 'E', 'F'][value]
}

/// The six upper-case hexadecimal digits that spell a color, without a
/// leading `#`.
pub open spec fn hex_text(rgb: (u8, u8, u8)) -> Seq<char> {
    seq![
        hex_digit_char(rgb.0 as int / 16),
        hex_digit_char(rgb.0 as int % 16),
        hex_digit_char(rgb.1 as int / 16),
        hex_digit_char(rgb.1 as int % 16),
        hex_digit_char(rgb.2 as int / 16),
        hex_digit_char(rgb.2 as int % 16),
    ]
}

/// The text of one hexadecimal digit.
fn hex_digit_text(value: u8) -> (text: &'static str)
    requires
        value < 16,
    ensures
        text@ == seq![hex_digit_char(value as int)],
{
    proof {
        reveal_strlit("0");
        reveal_strlit("1");
        reveal_strlit("2");
        reveal_strlit("3");
        reveal_strlit("4");
        reveal_strlit("5");
        reveal_strlit("6");
        reveal_strlit("7");
        reveal_strlit("8");
        reveal_strlit("9");
        reveal_strlit("A");
        reveal_strlit("B");
        reveal_strlit("C");
        reveal_strlit("D");
        reveal_strlit("E");
        reveal_strlit("F");
    }
    let text = if value == 0 {
        "0"
    } else if value == 1 {
        "1"
    } else if value == 2 {
        "2"
    } else if value == 3 {
        "3"
    } else if value == 4 {
        "4"
    } else if value == 5 {
        "5"
    } else if value == 6 {
        "6"
    } else if value == 7 {
        "7"
    } else if value == 8 {
        "8"
    } else if value == 9 {
        "9"
    } else if value == 10 {
        "A"
    } else if value == 11 {
        "B"
    } else if value == 12 {
        "C"
    } else if value == 13 {
        "D"
    } else if value == 14 {
        "E"
    } else {
        "F"
    };
    text
}

/// Writes a color as six upper-case hexadecimal digits, `RRGGBB`.
pub fn rgb_to_hex(rgb: (u8, u8, u8)) -> (text: String)
    ensures
        text@ == hex_text(rgb),
{
    let mut text = String::new();
    text.append(hex_digit_text(rgb.0 / 16));
    text.append(hex_digit_text(rgb.0 % 16));
    text.append(hex_digit_text(rgb.1 / 16));
    text.append(hex_digit_text(rgb.1 % 16));
    text.append(hex_digit_text(rgb.2 / 16));
    text.append(hex_digit_text(rgb.2 % 16));
    text
}

/// Two digits written for a channel spell that channel.
proof fn lemma_channel_round_trip(channel: u8)
    ensures
        hex_pair_value(hex_digit_char(channel as int / 16), hex_digit_char(channel as int % 16))
            == Some(channel),
{
}

/// A text parses to a color exactly when it is six hexadecimal digits
/// after an optional `#`; any other text, whatever its length and
/// whatever it holds, is refused.
pub proof fn lemma_parses_exactly_hex_colors(text: Seq<char>)
    ensures
        parsed_hex(text) is Ok <==> is_hex_color(text),
{
    let digits = without_hash(text);
    if parsed_hex(text) is Ok {
        assert forall|i: int| 0 <= i < 6 implies hex_digit_value(#[trigger] digits[i]) is Some by {
            assert(i == 0 || i == 1 || i == 2 || i == 3 || i == 4 || i == 5);
        }
    }
}

/// A color that is written and parsed again is the same color, with or
/// without a leading `#`.
pub proof fn lemma_write_then_parse(rgb: (u8, u8, u8))
    ensures
        is_hex_color(hex_text(rgb)),
        parsed_hex(hex_text(rgb)) == Ok::<(u8, u8, u8), Seq<char>>(rgb),
        parsed_hex(seq!['#'] + hex_text(rgb)) == Ok::<(u8, u8, u8), Seq<char>>(rgb),
{
    let text = hex_text(rgb);
    lemma_channel_round_trip(rgb.0);
    lemma_channel_round_trip(rgb.1);
    lemma_channel_round_trip(rgb.2);
    assert(text[0] != '#');
    lemma_parses_exactly_hex_colors(text);
}

/// Parsing a color text, writing the color and parsing what was written
/// recovers the same three channels.
pub proof fn lemma_parse_then_write(text: Seq<char>)
    requires
        is_hex_color(text),
    ensures
        parsed_hex(text) is Ok,
        parsed_hex(hex_text(parsed_hex(text)->Ok_0)) == parsed_hex(text),
{
    lemma_parses_exactly_hex_colors(text);
    lemma_write_then_parse(parsed_hex(text)->Ok_0);
}

} // verus!
