//! Hexadecimal rendering and parsing of single bytes, as used by the key map
//! loader and the diagnostics of the driver.

use vstd::prelude::*;

verus! {

/// The character that renders one hexadecimal digit, lower case.
pub open spec fn hex_char_of(n: u8) -> char
    recommends
        n < 16,
{
    if n == 0 {
        '0'
    } else if n == 1 {
        '1'
    } else if n == 2 {
        '2'
    } else if n == 3 {
        '3'
    } else if n == 4 {
        '4'
    } else if n == 5 {
        '5'
    } else if n == 6 {
        '6'
    } else if n == 7 {
        '7'
    } else if n == 8 {
        '8'
    } else if n == 9 {
        '9'
    } else if n == 10 {
        'a'
    } else if n == 11 {
        'b'
    } else if n == 12 {
        'c'
    } else if n == 13 {
        'd'
    } else if n == 14 {
        'e'
    } else {
        'f'
    }
}

/// The value of one hexadecimal digit character, or 16 for any other
/// character.
pub open spec fn hex_value_of(c: char) -> u8 {
    if c == '0' {
        0
    } else if c == '1' {
        1
    } else if c == '2' {
        2
    } else if c == '3' {
        3
    } else if c == '4' {
        4
    } else if c == '5' {
        5
    } else if c == '6' {
        6
    } else if c == '7' {
        7
    } else if c == '8' {
        8
    } else if c == '9' {
        9
    } else if c == 'a' || c == 'A' {
        10
    } else if c == 'b' || c == 'B' {
        11
    } else if c == 'c' || c == 'C' {
        12
    } else if c == 'd' || c == 'D' {
        13
    } else if c == 'e' || c == 'E' {
        14
    } else if c == 'f' || c == 'F' {
        15
    } else {
        16
    }
}

/// True when `c` is a hexadecimal digit in either case.
pub open spec fn is_hex_digit(c: char) -> bool {
    hex_value_of(c) < 16
}

/// The view of a byte rendered as `0x` followed by two lower-case digits.
pub open spec fn hex_string_of(n: u8) -> Seq<char> {
    seq!['0', 'x', hex_char_of(n / 16), hex_char_of(n % 16)]
}

fn hex_digit_str(n: u8) -> (r: &'static str)
    requires
        n < 16,
    ensures
        r@ =~= seq![hex_char_of(n)],
{
    proof {
        reveal_strlit("0");
        reveal_strlit("1");
        reveal_strlit("2");
        reveal_strlit("3");
        reveal_strlit("4");
        reveal_strlit("5");
        reveal_strlit("6");
        reveal_strlit("7");
        reveal_strlit("8");
        reveal_strlit("9");
        reveal_strlit("a");
        reveal_strlit("b");
        reveal_strlit("c");
        reveal_strlit("d");
        reveal_strlit("e");
        reveal_strlit("f");
    }
    if n == 0 {
        "0"
    } else if n == 1 {
        "1"
    } else if n == 2 {
        "2"
    } else if n == 3 {
        "3"
    } else if n == 4 {
        "4"
    } else if n == 5 {
        "5"
    } else if n == 6 {
        "6"
    } else if n == 7 {
        "7"
    } else if n == 8 {
        "8"
    } else if n == 9 {
        "9"
    } else if n == 10 {
        "a"
    } else if n == 11 {
        "b"
    } else if n == 12 {
        "c"
    } else if n == 13 {
        "d"
    } else if n == 14 {
        "e"
    } else {
        "f"
    }
}

/// Renders a byte as `0x` followed by two lower-case hexadecimal digits.
pub fn u8_to_hex_string(number: u8) -> (r: String)
    ensures
        r@ =~= hex_string_of(number),
{
    proof {
        reveal_strlit("0x");
    }
    let mut s = String::from_str("0x");
    s.append(hex_digit_str(number / 16));
    s.append(hex_digit_str(number % 16));
    s
}

/// True when the view parses as a byte in hexadecimal: an optional `0x`
/// prefix, then one or two hexadecimal digits.
pub open spec fn is_hex_byte_string(s: Seq<char>) -> bool {
    let digits = hex_digit_view(s);
    1 <= digits.len() <= 2 && (forall|i: int| 0 <= i < digits.len() ==> is_hex_digit(digits[i]))
}

/// The digit portion of a hexadecimal byte string: the view with any `0x`
/// prefix removed.
pub open spec fn hex_digit_view(s: Seq<char>) -> Seq<char> {
    if s.len() >= 2 && s[0] == '0' && s[1] == 'x' {
        s.skip(2)
    } else {
        s
    }
}

/// The byte a hexadecimal byte string denotes.
pub open spec fn hex_byte_value(s: Seq<char>) -> u8
    recommends
        is_hex_byte_string(s),
{
    let digits = hex_digit_view(s);
    if digits.len() == 1 {
        hex_value_of(digits[0])
    } else {
        (hex_value_of(digits[0]) * 16 + hex_value_of(digits[1])) as u8
    }
}

fn hex_digit_value(c: char) -> (r: u8)
    ensures
        r == hex_value_of(c),
{
    if c == '0' {
        0
    } else if c == '1' {
        1
    } else if c == '2' {
        2
    } else if c == '3' {
        3
    } else if c == '4' {
        4
    } else if c == '5' {
        5
    } else if c == '6' {
        6
    } else if c == '7' {
        7
    } else if c == '8' {
        8
    } else if c == '9' {
        9
    } else if c == 'a' || c == 'A' {
        10
    } else if c == 'b' || c == 'B' {
        11
    } else if c == 'c' || c == 'C' {
        12
    } else if c == 'd' || c == 'D' {
        13
    } else if c == 'e' || c == 'E' {
        14
    } else if c == 'f' || c == 'F' {
        15
    } else {
        16
    }
}

/// Parses a byte written in hexadecimal, with or without a `0x` prefix.
pub fn decode_hex(s: &str) -> (r: u8)
    requires
        is_hex_byte_string(s@),
    ensures
        r == hex_byte_value(s@),
{
    let len = s.unicode_len();
    let start: usize = if len >= 2 && s.get_char(0) == '0' && s.get_char(1) == 'x' {
        2
    } else {
        0
    };
    proof {
        assert(hex_digit_view(s@) =~= s@.skip(start as int));
    }
    if len - start == 1 {
        hex_digit_value(s.get_char(start))
    } else {
        let hi = hex_digit_value(s.get_char(start));
        let lo = hex_digit_value(s.get_char(start + 1));
        proof {
            let digits = hex_digit_view(s@);
            assert(is_hex_digit(digits[0]));
            assert(is_hex_digit(digits[1]));
        }
        hi * 16 + lo
    }
}

/// Rendering a byte and parsing it back returns the byte: the hexadecimal
/// forms of `u8_to_hex_string` and `decode_hex` are inverse on every byte.
pub proof fn lemma_hex_round_trip(n: u8)
    ensures
        is_hex_byte_string(hex_string_of(n)),
        hex_byte_value(hex_string_of(n)) == n,
{
    assert(hex_digit_view(hex_string_of(n)) =~= seq![hex_char_of(n / 16), hex_char_of(n % 16)]);
}

} // verus!
