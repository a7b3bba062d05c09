//! Opaque RGBA colors, interchangeable with an 8-character hexadecimal string
//! (two digits per channel, in red, green, blue, alpha order).
//!
//! A color is parsed once, at construction time, and stored as its four
//! channel bytes; a string that does not decode to exactly 4 bytes is a
//! construction-time error, never a runtime one.

use vstd::prelude::*;
use hex::FromHex;

verus! {

/// One fixed-width opaque color: four unsigned 8-bit channels.
#[derive(Clone, Copy, Debug, PartialEq, Eq, Structural)]
pub struct Color {
    pub red: u8,
    pub green: u8,
    pub blue: u8,
    pub alpha: u8,
}

/// The one failure this module knows: a color string whose length is not 8 or
/// that holds a character outside `0-9`, `a-f`, `A-F`.
#[derive(Clone, Copy, Debug, PartialEq, Eq, Structural)]
pub enum ColorError {
    InvalidEncoding,
}

/// A hexadecimal digit, either case.
pub open spec fn is_hex_digit(c: char) -> bool {
    ||| '0' <= c && c <= '9'
    ||| 'a' <= c && c <= 'f'
    ||| 'A' <= c && c <= 'F'
}

/// The numeric value of one hexadecimal digit.
pub open spec fn hex_digit_value(c: char) -> int
    recommends
        is_hex_digit(c),
{
    if '0' <= c && c <= '9' {
        c as int - '0' as int
    } else if 'a' <= c && c <= 'f' {
        c as int - 'a' as int + 10
    } else {
        c as int - 'A' as int + 10
    }
}

/// The byte written as two hexadecimal digits, high nibble first.
pub open spec fn hex_pair_value(hi: char, lo: char) -> u8
    recommends
        is_hex_digit(hi),
        is_hex_digit(lo),
{
    (hex_digit_value(hi) * 16 + hex_digit_value(lo)) as u8
}

/// A well-formed color string: exactly 8 hexadecimal digits.
pub open spec fn valid_rgba_hex(s: Seq<char>) -> bool {
    &&& s.len() == 8
    &&& forall|i: int| 0 <= i < s.len() ==> is_hex_digit(#[trigger] s[i])
}

/// The color an 8-digit string denotes: one byte per digit pair, in
/// red, green, blue, alpha order.
pub open spec fn decoded_color(s: Seq<char>) -> Color
    recommends
        valid_rgba_hex(s),
{
    Color {
        red: hex_pair_value(s[0], s[1]),
        green: hex_pair_value(s[2], s[3]),
        blue: hex_pair_value(s[4], s[5]),
        alpha: hex_pair_value(s[6], s[7]),
    }
}

/// The lowercase hexadecimal digit for a value below 16.
pub open spec fn hex_char_of(v: int) -> char
    recommends
        0 <= v < 16,
{
    if v < 10 {
        (v + ('0' as int)) as char
    } else {
        (v - 10 + ('a' as int)) as char
    }
}

/// One byte as two lowercase hexadecimal digits, high nibble first.
pub open spec fn encoded_byte(b: u8) -> Seq<char> {
    seq![hex_char_of(b as int / 16), hex_char_of(b as int % 16)]
}

/// A color as its 8-digit lowercase string, channels in
/// red, green, blue, alpha order.
pub open spec fn encoded_rgba(c: Color) -> Seq<char> {
    encoded_byte(c.red) + encoded_byte(c.green) + encoded_byte(c.blue) + encoded_byte(c.alpha)
}

/// Relies on `<[u8; 4]>::from_hex` of the `hex` crate: it succeeds exactly on
/// inputs of eight hexadecimal digits (either case), and then returns the four
/// decoded bytes in order, each the value of one digit pair, high nibble
/// first; on any other input it fails.
#[verifier::external_body]
fn decode_rgba_hex(s: &str) -> (r: Result<Color, ColorError>)
    ensures
        r is Ok <==> valid_rgba_hex(s@),
        r is Ok ==> r->Ok_0 == decoded_color(s@),
        r is Err ==> r->Err_0 == ColorError::InvalidEncoding,
{
    match <[u8; 4]>::from_hex(s) {
        Ok(b) => Ok(Color { red: b[0], green: b[1], blue: b[2], alpha: b[3] }),
        Err(_) => Err(ColorError::InvalidEncoding),
    }
}

/// Relies on `hex::encode`: every byte becomes exactly two lowercase
/// hexadecimal digits, high nibble first, in input order.
#[verifier::external_body]
fn encode_rgba_hex(c: &Color) -> (r: String)
    ensures
        r@ == encoded_rgba(*c),
{
    hex::encode([c.red, c.green, c.blue, c.alpha])
}

impl Color {
    /// Parse an 8-digit hexadecimal color string, two digits per channel in
    /// red, green, blue, alpha order; fail on any other input.
    pub fn from_hex(s: &str) -> (r: Result<Color, ColorError>)
        ensures
            r is Ok <==> valid_rgba_hex(s@),
            r is Ok ==> r->Ok_0 == decoded_color(s@),
            r is Err ==> r->Err_0 == ColorError::InvalidEncoding,
    {
        decode_rgba_hex(s)
    }

    /// The color as its 8-digit lowercase hexadecimal string.
    pub fn to_hex(&self) -> (r: String)
        ensures
            r@ == encoded_rgba(*self),
    {
        encode_rgba_hex(self)
    }
}

/// Encoding a color always yields a well-formed color string, and decoding
/// that string gives the same color back: the two directions of the hex
/// representation are inverses.
pub proof fn lemma_color_round_trip(c: Color)
    ensures
        valid_rgba_hex(encoded_rgba(c)),
        decoded_color(encoded_rgba(c)) == c,
{
    lemma_byte_round_trip(c.red);
    lemma_byte_round_trip(c.green);
    lemma_byte_round_trip(c.blue);
    lemma_byte_round_trip(c.alpha);
}

/// The lowercase form of a hexadecimal digit: the uppercase letters fold,
/// everything else stays.
pub open spec fn lower_hex_digit(c: char) -> char {
    if 'A' <= c && c <= 'F' {
        (c as int - 'A' as int + 'a' as int) as char
    } else {
        c
    }
}

/// Decoding a well-formed color string and re-encoding the result gives the
/// same string back with every digit lowercased: the encoding round-trips up
/// to letter case.
pub proof fn lemma_hex_string_round_trip(s: Seq<char>)
    requires
        valid_rgba_hex(s),
    ensures
        encoded_rgba(decoded_color(s)) =~= s.map(|i: int, c: char| lower_hex_digit(c)),
{
    lemma_pair_round_trip(s[0], s[1]);
    lemma_pair_round_trip(s[2], s[3]);
    lemma_pair_round_trip(s[4], s[5]);
    lemma_pair_round_trip(s[6], s[7]);
}

/// Two hexadecimal digits survive the trip through the byte they denote,
/// folded to lowercase.
proof fn lemma_pair_round_trip(hi: char, lo: char)
    requires
        is_hex_digit(hi),
        is_hex_digit(lo),
    ensures
        encoded_byte(hex_pair_value(hi, lo)) =~= seq![lower_hex_digit(hi), lower_hex_digit(lo)],
{
    let h = hex_digit_value(hi);
    let l = hex_digit_value(lo);
    let b = hex_pair_value(hi, lo);
    assert(b as int == h * 16 + l);
    assert(b as int / 16 == h && b as int % 16 == l);
    lemma_hex_char_lower(hi);
    lemma_hex_char_lower(lo);
}

/// Encoding a digit's value gives the digit itself, folded to lowercase.
proof fn lemma_hex_char_lower(c: char)
    requires
        is_hex_digit(c),
    ensures
        hex_char_of(hex_digit_value(c)) == lower_hex_digit(c),
{
}

/// One byte survives the trip through its two hexadecimal digits.
proof fn lemma_byte_round_trip(b: u8)
    ensures
        is_hex_digit(hex_char_of(b as int / 16)),
        is_hex_digit(hex_char_of(b as int % 16)),
        hex_pair_value(hex_char_of(b as int / 16), hex_char_of(b as int % 16)) == b,
{
    lemma_hex_digit_round_trip(b as int / 16);
    lemma_hex_digit_round_trip(b as int % 16);
}

/// A value below 16 survives the trip through its hexadecimal digit.
proof fn lemma_hex_digit_round_trip(v: int)
    requires
        0 <= v < 16,
    ensures
        is_hex_digit(hex_char_of(v)),
        hex_digit_value(hex_char_of(v)) == v,
{
}

} // verus!
