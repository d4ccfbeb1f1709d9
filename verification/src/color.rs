//! Colours and the file names that denote them.
//!
//! A file name denotes a colour when it is six hexadecimal digits followed by
//! `.png`: two digits each for red, green and blue, in that order. Digits may
//! be upper or lower case; nothing else is accepted.

use vstd::prelude::*;

verus! {

/// A colour as three 8-bit channels.
#[derive(Clone, Copy, Debug, PartialEq, Eq, Structural)]
pub struct Color {
    pub red: u8,
    pub green: u8,
    pub blue: u8,
}

/// The error for a file name that denotes no colour.
#[derive(Clone, Copy, Debug, PartialEq, Eq, Structural)]
pub struct InvalidName;

/// Number of hexadecimal digits in a colour file name.
pub const HEX_DIGITS: usize = 6;

/// Number of characters in a colour file name: the digits and the extension.
pub const NAME_LEN: usize = 10;

/// The extension that every colour file name ends with.
pub open spec fn extension() -> Seq<char> {
    seq!['.', 'p', 'n', 'g']
}

/// The value of a hexadecimal digit, or `None` for any other character.
pub open spec fn hex_value(c: char) -> Option<u8> {
    if '0' <= c <= '9' {
        Some((c as u8 - '0' as u8) as u8)
    } else if 'a' <= c <= 'f' {
        Some((c as u8 - 'a' as u8 + 10) as u8)
    } else if 'A' <= c <= 'F' {
        Some((c as u8 - 'A' as u8 + 10) as u8)
    } else {
        None
    }
}

/// The value of the two-digit group `hi lo`; meaningful when both are digits.
pub open spec fn pair_value(hi: char, lo: char) -> u8 {
    (16 * hex_value(hi).unwrap() + hex_value(lo).unwrap()) as u8
}

/// Whether `name` is a colour file name.
pub open spec fn is_color_name(name: Seq<char>) -> bool {
    &&& name.len() == NAME_LEN
    &&& forall|i: int| 0 <= i < HEX_DIGITS ==> (#[trigger] hex_value(name[i])) is Some
    &&& name.subrange(HEX_DIGITS as int, NAME_LEN as int) == extension()
}

/// The colour that a colour file name denotes.
pub open spec fn color_of(name: Seq<char>) -> Color {
    Color {
        red: pair_value(name[0], name[1]),
        green: pair_value(name[2], name[3]),
        blue: pair_value(name[4], name[5]),
    }
}

/// What parsing `name` gives: its colour, or the error when it has none.
pub open spec fn parse_name(name: Seq<char>) -> Result<Color, InvalidName> {
    if is_color_name(name) {
        Ok(color_of(name))
    } else {
        Err(InvalidName)
    }
}

/// Reads one hexadecimal digit.
pub fn hex_digit(c: char) -> (value: Option<u8>)
    ensures
        value == hex_value(c),
        value is Some ==> value.unwrap() < 16,
{
    if '0' <= c && c <= '9' {
        Some(c as u8 - '0' as u8)
    } else if 'a' <= c && c <= 'f' {
        Some(c as u8 - 'a' as u8 + 10)
    } else if 'A' <= c && c <= 'F' {
        Some(c as u8 - 'A' as u8 + 10)
    } else {
        None
    }
}

/// Reads the two-digit group `hi lo` as one channel value.
pub fn hex_pair(hi: char, lo: char) -> (value: Option<u8>)
    ensures
        value is Some <==> hex_value(hi) is Some && hex_value(lo) is Some,
        value is Some ==> value.unwrap() == pair_value(hi, lo),
{
    match (hex_digit(hi), hex_digit(lo)) {
        (Some(h), Some(l)) => Some(16 * h + l),
        _ => None,
    }
}

/// Parses a file name into the colour it denotes.
pub fn color_from_str(name: &str) -> (result: Result<Color, InvalidName>)
    ensures
        result == parse_name(name@),
{
    if name.unicode_len() != NAME_LEN {
        return Err(InvalidName);
    }
    let red = hex_pair(name.get_char(0), name.get_char(1));
    let green = hex_pair(name.get_char(2), name.get_char(3));
    let blue = hex_pair(name.get_char(4), name.get_char(5));
    let dotted = name.get_char(6) == '.' && name.get_char(7) == 'p' && name.get_char(8) == 'n'
        && name.get_char(9) == 'g';
    proof {
        let tail = name@.subrange(HEX_DIGITS as int, NAME_LEN as int);
        assert(tail == extension() <==> dotted) by {
            if dotted {
                assert(tail =~= extension());
            } else {
                assert(tail[0] == name@[6] && tail[1] == name@[7] && tail[2] == name@[8]
                    && tail[3] == name@[9]);
            }
        }
    }
    match (red, green, blue) {
        (Some(r), Some(g), Some(b)) if dotted => Ok(Color { red: r, green: g, blue: b }),
        _ => {
            assert(!is_color_name(name@)) by {
                if is_color_name(name@) {
                    assert(hex_value(name@[0]) is Some && hex_value(name@[1]) is Some);
                    assert(hex_value(name@[2]) is Some && hex_value(name@[3]) is Some);
                    assert(hex_value(name@[4]) is Some && hex_value(name@[5]) is Some);
                }
            }
            Err(InvalidName)
        },
    }
}

/// The lower-case digit that stands for `value`; meaningful below 16.
pub open spec fn hex_char(value: int) -> char {
    if value < 10 {
        ('0' as u8 + value) as u8 as char
    } else {
        ('a' as u8 + value - 10) as u8 as char
    }
}

/// `c` with an upper-case hexadecimal letter turned into its lower case.
pub open spec fn lower(c: char) -> char {
    if 'A' <= c <= 'F' {
        (c as u8 + 32) as u8 as char
    } else {
        c
    }
}

/// The lower-case file name of `color`.
pub open spec fn name_of(color: Color) -> Seq<char> {
    seq![
        hex_char(color.red as int / 16),
        hex_char(color.red as int % 16),
        hex_char(color.green as int / 16),
        hex_char(color.green as int % 16),
        hex_char(color.blue as int / 16),
        hex_char(color.blue as int % 16),
    ] + extension()
}

/// A digit's value is below 16, and writing the value gives the digit back
/// in lower case.
pub proof fn lemma_digit_round_trip(c: char)
    requires
        hex_value(c) is Some,
    ensures
        hex_value(c).unwrap() < 16,
        hex_char(hex_value(c).unwrap() as int) == lower(c),
{
}

/// Writing a value below 16 gives a digit of that value.
pub proof fn lemma_value_round_trip(value: int)
    requires
        0 <= value < 16,
    ensures
        hex_value(hex_char(value)) == Some(value as u8),
{
}

/// Every file name that the grammar accepts parses, and each channel of its
/// colour is the value of its own two digits: sixteen times the first plus
/// the second, red from the first pair, green from the second, blue from
/// the third.
pub proof fn lemma_channels_are_the_groups(name: Seq<char>)
    requires
        is_color_name(name),
    ensures
        parse_name(name) is Ok,
        parse_name(name).unwrap().red == 16 * hex_value(name[0]).unwrap() + hex_value(
            name[1],
        ).unwrap(),
        parse_name(name).unwrap().green == 16 * hex_value(name[2]).unwrap() + hex_value(
            name[3],
        ).unwrap(),
        parse_name(name).unwrap().blue == 16 * hex_value(name[4]).unwrap() + hex_value(
            name[5],
        ).unwrap(),
{
    assert(hex_value(name[0]) is Some && hex_value(name[1]) is Some);
    assert(hex_value(name[2]) is Some && hex_value(name[3]) is Some);
    assert(hex_value(name[4]) is Some && hex_value(name[5]) is Some);
    lemma_digit_round_trip(name[0]);
    lemma_digit_round_trip(name[1]);
    lemma_digit_round_trip(name[2]);
    lemma_digit_round_trip(name[3]);
    lemma_digit_round_trip(name[4]);
    lemma_digit_round_trip(name[5]);
}

/// Parsing a file name and writing the colour's name gives the file name
/// back, up to the case of its letters.
pub proof fn lemma_parse_round_trip(name: Seq<char>)
    requires
        is_color_name(name),
    ensures
        name_of(color_of(name)) == name.map_values(|c: char| lower(c)),
{
    lemma_channels_are_the_groups(name);
    let written = name_of(color_of(name));
    let lowered = name.map_values(|c: char| lower(c));
    let tail = name.subrange(HEX_DIGITS as int, NAME_LEN as int);
    assert(tail[0] == name[6] && tail[1] == name[7] && tail[2] == name[8] && tail[3] == name[9]);
    lemma_digit_round_trip(name[0]);
    lemma_digit_round_trip(name[1]);
    lemma_digit_round_trip(name[2]);
    lemma_digit_round_trip(name[3]);
    lemma_digit_round_trip(name[4]);
    lemma_digit_round_trip(name[5]);
    assert(written.len() == lowered.len());
    assert forall|i: int| 0 <= i < written.len() implies written[i] == lowered[i] by {
        if i == 0 {
        } else if i == 1 {
        } else if i == 2 {
        } else if i == 3 {
        } else if i == 4 {
        } else if i == 5 {
        } else if i == 6 {
        } else if i == 7 {
        } else if i == 8 {
        } else {
        }
    }
    assert(written =~= lowered);
}

/// Every colour has a file name: the name written for it parses back to it.
pub proof fn lemma_name_round_trip(color: Color)
    ensures
        parse_name(name_of(color)) == Ok::<Color, InvalidName>(color),
{
    let name = name_of(color);
    lemma_value_round_trip(color.red as int / 16);
    lemma_value_round_trip(color.red as int % 16);
    lemma_value_round_trip(color.green as int / 16);
    lemma_value_round_trip(color.green as int % 16);
    lemma_value_round_trip(color.blue as int / 16);
    lemma_value_round_trip(color.blue as int % 16);
    assert(name.subrange(HEX_DIGITS as int, NAME_LEN as int) =~= extension());
    assert forall|i: int| 0 <= i < HEX_DIGITS implies (#[trigger] hex_value(name[i])) is Some by {
        if i == 0 {
        } else if i == 1 {
        } else if i == 2 {
        } else if i == 3 {
        } else if i == 4 {
        } else {
        }
    }
}

/// Parsing is strict. A name of the wrong length, one with a character
/// among its first six that is no hexadecimal digit, and one that does not
/// end in the extension are all refused.
pub proof fn lemma_rejects_malformed_names(name: Seq<char>)
    requires
        name.len() != NAME_LEN || (exists|i: int|
            0 <= i < HEX_DIGITS && (#[trigger] hex_value(name[i])) is None) || name.subrange(
            HEX_DIGITS as int,
            NAME_LEN as int,
        ) != extension(),
    ensures
        parse_name(name) == Err::<Color, InvalidName>(InvalidName),
{
}

/// No character of a colour file name is the path separator.
pub proof fn lemma_names_hold_no_separator(name: Seq<char>)
    requires
        is_color_name(name),
    ensures
        forall|i: int| 0 <= i < name.len() ==> name[i] != '/',
{
    let tail = name.subrange(HEX_DIGITS as int, NAME_LEN as int);
    assert forall|i: int| 0 <= i < name.len() implies name[i] != '/' by {
        if i < HEX_DIGITS {
            assert(hex_value(name[i]) is Some);
        } else {
            assert(tail[i - HEX_DIGITS] == name[i]);
        }
    }
}

} // verus!
