//! The seven-segment patterns that the glyph tables of both drivers carry,
//! stated segment by segment.
use vstd::prelude::*;
use crate::spi::{ascii_upper, char_glyph, digit_glyph};
use crate::gpio::glyph_of;

verus! {

/// The pattern that lights the given segments: `a` top, `b` upper right,
/// `c` lower right, `d` bottom, `e` lower left, `f` upper left, `g` middle
/// (bits 0 to 6); the decimal point (bit 7) stays dark.
pub open spec fn lit(a: bool, b: bool, c: bool, d: bool, e: bool, f: bool, g: bool) -> u8 {
    ((if a { 1int } else { 0int }) + (if b { 2int } else { 0int }) + (if c { 4int } else { 0int })
        + (if d { 8int } else { 0int }) + (if e { 16int } else { 0int }) + (if f { 32int } else { 0int })
        + (if g { 64int } else { 0int })) as u8
}

/// The standard seven-segment digits.
pub open spec fn standard_digit_pattern(d: nat) -> u8 {
    if d == 0 {
        lit(true, true, true, true, true, true, false)
    } else if d == 1 {
        lit(false, true, true, false, false, false, false)
    } else if d == 2 {
        lit(true, true, false, true, true, false, true)
    } else if d == 3 {
        lit(true, true, true, true, false, false, true)
    } else if d == 4 {
        lit(false, true, true, false, false, true, true)
    } else if d == 5 {
        lit(true, false, true, true, false, true, true)
    } else if d == 6 {
        lit(true, false, true, true, true, true, true)
    } else if d == 7 {
        lit(true, true, true, false, false, false, false)
    } else if d == 8 {
        lit(true, true, true, true, true, true, true)
    } else {
        lit(true, true, true, true, false, true, true)
    }
}

/// Whether `c` is an ASCII decimal digit.
pub open spec fn is_digit_char(c: char) -> bool {
    '0' <= c && c <= '9'
}

/// The value of an ASCII decimal digit.
pub open spec fn digit_value(c: char) -> nat {
    ((c as int) - 48) as nat
}

/// The segments the SPI driver lights for a character: the ten digits, the
/// hexadecimal letters in either case, the minus sign; nothing otherwise.
pub open spec fn spi_pattern(c: char) -> u8 {
    if is_digit_char(c) {
        standard_digit_pattern(digit_value(c))
    } else if c == 'A' || c == 'a' {
        lit(true, true, true, false, true, true, true)
    } else if c == 'B' || c == 'b' {
        lit(false, false, true, true, true, true, true)
    } else if c == 'C' || c == 'c' {
        lit(true, false, false, true, true, true, false)
    } else if c == 'D' || c == 'd' {
        lit(false, true, true, true, true, false, true)
    } else if c == 'E' || c == 'e' {
        lit(true, false, false, true, true, true, true)
    } else if c == 'F' || c == 'f' {
        lit(true, false, false, false, true, true, true)
    } else if c == '-' {
        lit(false, false, false, false, false, false, true)
    } else {
        0
    }
}

/// The segments the bit-banged driver lights for a character: the ten
/// digits, its letters in either case, the minus sign, the point; nothing
/// otherwise.
pub open spec fn gpio_pattern(c: char) -> u8 {
    if is_digit_char(c) {
        standard_digit_pattern(digit_value(c))
    } else if c == 'A' || c == 'a' {
        lit(true, true, true, false, true, true, true)
    } else if c == 'B' || c == 'b' {
        lit(false, false, true, true, true, true, true)
    } else if c == 'C' || c == 'c' {
        lit(true, false, false, true, true, true, false)
    } else if c == 'D' || c == 'd' {
        lit(false, true, true, true, true, false, true)
    } else if c == 'E' || c == 'e' {
        lit(true, false, false, true, true, true, true)
    } else if c == 'F' || c == 'f' {
        lit(true, false, false, false, true, true, true)
    } else if c == 'G' || c == 'g' {
        lit(true, false, true, true, true, true, false)
    } else if c == 'H' || c == 'h' {
        lit(false, true, true, false, true, true, true)
    } else if c == 'I' || c == 'i' {
        lit(false, false, false, false, true, true, false)
    } else if c == 'J' || c == 'j' {
        lit(false, true, true, true, true, false, false)
    } else if c == 'L' || c == 'l' {
        lit(false, false, false, true, true, true, false)
    } else if c == 'O' || c == 'o' {
        lit(true, true, true, true, true, true, false)
    } else if c == 'P' || c == 'p' {
        lit(true, true, false, false, true, true, true)
    } else if c == 'U' || c == 'u' {
        lit(false, true, true, true, true, true, false)
    } else if c == 'S' || c == 's' {
        lit(false, true, true, false, true, true, false)
    } else if c == '-' {
        lit(false, false, false, false, false, false, true)
    } else if c == '.' {
        128
    } else {
        0
    }
}

/// Every character shows, on the SPI driver, the segments listed for it.
pub proof fn lemma_spi_glyph_patterns(c: char)
    ensures
        char_glyph(c).bits() == spi_pattern(c),
{
}

/// Every character shows, on the bit-banged driver, the segments listed for
/// it.
pub proof fn lemma_gpio_glyph_patterns(c: char)
    ensures
        glyph_of(c).bits() == gpio_pattern(c),
{
}

/// The bit-banged lookup ignores ASCII case, as the SPI one does.
pub proof fn lemma_gpio_from_char_ignores_case(c: char)
    ensures
        glyph_of(c) == glyph_of(ascii_upper(c)),
{
}

/// Digit `d` has the standard pattern in both drivers, through their
/// character lookups and through the SPI driver's digit table.
pub proof fn lemma_digits_standard_in_both_drivers(d: nat)
    requires
        d < 10,
    ensures
        glyph_of(((48 + d) as u8) as char).bits() == standard_digit_pattern(d),
        char_glyph(((48 + d) as u8) as char).bits() == standard_digit_pattern(d),
        digit_glyph(d).bits() == standard_digit_pattern(d),
{
    assert(digit_value(((48 + d) as u8) as char) == d);
}

/// The ten digit patterns are pairwise different, and none is blank.
pub proof fn lemma_digit_patterns_distinct(d1: nat, d2: nat)
    requires
        d1 < 10,
        d2 < 10,
        d1 != d2,
    ensures
        standard_digit_pattern(d1) != standard_digit_pattern(d2),
        standard_digit_pattern(d1) != 0,
        standard_digit_pattern(d1) < 0x80,
{
}

} // verus!
