//! Properties that hold across the SPI driver's glyph table and encoders.
use vstd::prelude::*;
use crate::spi::{
    Segment, ascii_upper, char_glyph, digit_glyph, drop_digits, digit_shown, number_cells,
    text_cells, lemma_hidden_stays_hidden, digit_address, magnitude_cell, cells_buffer,
};
use crate::patterns::{standard_digit_pattern, spi_pattern, lemma_spi_glyph_patterns};

verus! {

/// The decimal representation of `n` as ASCII bytes, most significant first.
pub open spec fn decimal_digits(n: nat) -> Seq<u8>
    decreases n,
{
    if n < 10 {
        seq![(48 + n) as u8]
    } else {
        decimal_digits(n / 10).push((48 + n % 10) as u8)
    }
}

/// `text` padded on the left with ASCII spaces to `width` bytes.
pub open spec fn right_aligned(text: Seq<u8>, width: nat) -> Seq<u8> {
    Seq::new((width - text.len()) as nat, |i: int| 32u8) + text
}

/// The text that shows `num` right-aligned on the eight digits: the decimal
/// digits of a non-negative number, or a minus sign in the leftmost digit and
/// the decimal digits of the magnitude on the seven others.
pub open spec fn signed_decimal_text(num: int) -> Seq<u8> {
    if num < 0 {
        seq![45u8] + right_aligned(decimal_digits((-num) as nat), 7)
    } else {
        right_aligned(decimal_digits(num as nat), 8)
    }
}

/// Lighting the decimal point sets bit 7 and keeps the other seven segments;
/// lighting it twice is lighting it once.
pub proof fn lemma_with_dot_lights_only_the_point(s: Segment)
    ensures
        s.dotted().bits() == s.bits() | 0x80,
        s.dotted().bits() & 0x80 == 0x80,
        s.dotted().bits() & 0x7f == s.bits() & 0x7f,
        s.dotted().dotted() == s.dotted(),
{
    let b = s.bits();
    assert(b | 0x80 == 0x80 ==> b == 0 || b == 0x80) by (bit_vector);
    assert((b | 0x80) & 0x80 == 0x80) by (bit_vector);
    assert((b | 0x80) & 0x7f == b & 0x7f) by (bit_vector);
    assert((b | 0x80) | 0x80 == b | 0x80) by (bit_vector);
}

/// Characters are looked up case-insensitively: a character shows the glyph
/// of its ASCII upper case.
pub proof fn lemma_from_char_ignores_case(c: char)
    ensures
        char_glyph(c) == char_glyph(ascii_upper(c)),
{
}

/// The sixteen hexadecimal digits have sixteen different patterns, none of
/// them blank.
pub proof fn lemma_hex_digits_are_distinct(c1: char, c2: char)
    requires
        ('0' <= c1 <= '9') || ('A' <= c1 <= 'F') || ('a' <= c1 <= 'f'),
        ('0' <= c2 <= '9') || ('A' <= c2 <= 'F') || ('a' <= c2 <= 'f'),
        ascii_upper(c1) != ascii_upper(c2),
    ensures
        char_glyph(c1).bits() != char_glyph(c2).bits(),
        char_glyph(c1).bits() != 0,
{
}

/// Removing `k + 1` digits of `n` is removing `k` digits of `n / 10`.
pub proof fn lemma_drop_digits_shift(n: nat, k: nat)
    ensures
        drop_digits(n, k + 1) == drop_digits(n / 10, k),
    decreases k,
{
    if k == 0 {
        assert(drop_digits(n, 1) == drop_digits(n, 0) / 10);
    } else {
        lemma_drop_digits_shift(n, (k - 1) as nat);
        assert(drop_digits(n, k + 1) == drop_digits(n, k) / 10);
        assert(drop_digits(n / 10, k) == drop_digits(n / 10, (k - 1) as nat) / 10);
    }
}

/// The decimal digits of a positive `n`, read from the right, are the digits
/// that removing lower digits uncovers, and nothing is left beyond them.
pub proof fn lemma_decimal_digits_from_right(n: nat)
    requires
        n > 0,
    ensures
        decimal_digits(n).len() >= 1,
        forall|k: nat| k < decimal_digits(n).len() ==> {
            &&& #[trigger] decimal_digits(n)[decimal_digits(n).len() - 1 - k] == (48 + drop_digits(n, k) % 10) as u8
            &&& drop_digits(n, k) != 0
        },
        drop_digits(n, decimal_digits(n).len()) == 0,
    decreases n,
{
    let d = decimal_digits(n);
    if n < 10 {
        assert(drop_digits(n, 0) == n);
        assert(drop_digits(n, 1) == 0);
    } else {
        let m = n / 10;
        lemma_decimal_digits_from_right(m);
        let dm = decimal_digits(m);
        assert(d == dm.push((48 + n % 10) as u8));
        assert forall|k: nat| k < d.len() implies {
            &&& #[trigger] d[d.len() - 1 - k] == (48 + drop_digits(n, k) % 10) as u8
            &&& drop_digits(n, k) != 0
        } by {
            if k == 0 {
                assert(drop_digits(n, 0) == n);
            } else {
                lemma_drop_digits_shift(n, (k - 1) as nat);
                assert(d[d.len() - 1 - k] == dm[dm.len() - 1 - (k - 1) as nat]);
            }
        }
        lemma_drop_digits_shift(n, dm.len());
    }
}

/// The glyph of a decimal digit character is the glyph of its digit.
proof fn lemma_digit_char_glyph(d: nat)
    requires
        d < 10,
    ensures
        char_glyph(((48 + d) as u8) as char) == digit_glyph(d),
{
}

/// Shown with no decimals, a number reads on the display as its decimal text
/// right-aligned: `number_buffer(num, 0)` shows what `text_buffer` shows for
/// that text, whenever the digits (and sign) fit in the eight cells.
pub proof fn lemma_whole_number_reads_as_decimal_text(num: int)
    requires
        num != 0,
        num > 0 ==> decimal_digits(num as nat).len() <= 8,
        num < 0 ==> decimal_digits((-num) as nat).len() <= 7,
    ensures
        number_cells(num, 0) == text_cells(signed_decimal_text(num)),
{
    let n: nat = (if num < 0 { -num } else { num }) as nat;
    let d = decimal_digits(n);
    let width: nat = if num < 0 { 7 } else { 8 };
    lemma_decimal_digits_from_right(n);
    let text = signed_decimal_text(num);
    assert(text.len() == 8);
    assert forall|i: int| 0 <= i < 8 implies #[trigger] number_cells(num, 0)[i] == text_cells(text)[i] by {
        let k: nat = (7 - i) as nat;
        if num < 0 && i == 0 {
            assert(text[0] == 45u8);
        } else if k < d.len() {
            assert(text[i] == d[d.len() - 1 - k]);
            lemma_digit_char_glyph(drop_digits(n, k) % 10);
        } else {
            assert(text[i] == 32u8);
            lemma_hidden_stays_hidden(n, 0, d.len(), k);
            assert(!digit_shown(n, 0, k));
        }
    }
    assert(number_cells(num, 0) =~= text_cells(text));
}

/// With 0 < `places` < 8 decimals, exactly one cell shows a decimal point:
/// the one `places` from the right (unless a minus sign takes that cell).
pub proof fn lemma_point_marks_the_decimals(num: int, places: nat, i: int)
    requires
        0 < places < 8,
        !(num < 0 && places == 7),
        0 <= i < 8,
    ensures
        (number_cells(num, places)[i].bits() & 0x80 == 0x80) <==> (i == 7 - places),
{
    let c = number_cells(num, places)[i];
    if i == 7 - places {
        lemma_with_dot_lights_only_the_point(crate::spi::magnitude_cell(
            (if num < 0 { -num } else { num }) as nat, places, (7 - i) as nat));
    } else {
        let b = c.bits();
        assert(b < 0x80);
        assert(b < 0x80 ==> b & 0x80 == 0) by (bit_vector);
    }
}

/// Without decimals no cell shows a decimal point.
pub proof fn lemma_no_point_without_decimals(num: int, i: int)
    requires
        0 <= i < 8,
    ensures
        number_cells(num, 0)[i].bits() & 0x80 == 0,
{
    let b = number_cells(num, 0)[i].bits();
    assert(b < 0x80);
    assert(b < 0x80 ==> b & 0x80 == 0) by (bit_vector);
}

/// Each of the eight digits has an even address of its own in display memory,
/// from the base address up.
pub proof fn lemma_digit_addresses(pos1: int, pos2: int)
    requires
        0 <= pos1 <= 7,
        0 <= pos2 <= 7,
    ensures
        0xC0 <= digit_address(pos1) <= 0xCE,
        digit_address(pos1) % 2 == 0,
        pos1 != pos2 ==> digit_address(pos1) != digit_address(pos2),
{
}

/// Clearing the point of a glyph that carries a digit pattern, dotted or
/// not, leaves that digit pattern.
proof fn lemma_digit_cell_pattern(s: Segment, m: nat, dotted: bool)
    requires
        m < 10,
        s == (if dotted { digit_glyph(m).dotted() } else { digit_glyph(m) }),
    ensures
        s.bits() & 0x7f == standard_digit_pattern(m),
{
    let b = digit_glyph(m).bits();
    assert(b == standard_digit_pattern(m));
    assert(b < 0x80);
    assert(b < 0x80 ==> (b | 0x80) & 0x7f == b && b & 0x7f == b) by (bit_vector);
    if dotted {
        lemma_with_dot_lights_only_the_point(digit_glyph(m));
    }
}

/// Every decimal digit of `|num|` is shown, whatever the number of decimals:
/// the cell `k` places from the right (when the number has more than `k`
/// digits, and the cell is not taken by a minus sign) carries, point aside,
/// the standard pattern of the `k`-th lowest decimal digit of `|num|`.
/// (Zero with no decimals shows nothing at all.)
pub proof fn lemma_number_shows_every_digit(num: int, places: nat, k: nat)
    requires
        num != 0 || places > 0,
        k < 8,
        k < decimal_digits((if num < 0 { -num } else { num }) as nat).len(),
        !(num < 0 && k == 7),
    ensures
        ({
            let d = decimal_digits((if num < 0 { -num } else { num }) as nat);
            number_cells(num, places)[7 - k].bits() & 0x7f == standard_digit_pattern(
                (d[d.len() - 1 - k] - 48) as nat,
            )
        }),
{
    let n: nat = (if num < 0 { -num } else { num }) as nat;
    let d = decimal_digits(n);
    let i: int = 7 - k;
    if n > 0 {
        lemma_decimal_digits_from_right(n);
        assert(d[d.len() - 1 - k] == (48 + drop_digits(n, k) % 10) as u8);
    } else {
        assert(d == seq![48u8]);
        assert(k == 0);
        assert(drop_digits(n, 0) == 0);
    }
    assert(digit_shown(n, places, k));
    let m = drop_digits(n, k) % 10;
    assert((d[d.len() - 1 - k] - 48) as nat == m);
    assert(magnitude_cell(n, places, k) == digit_glyph(m));
    assert((7 - i) as nat == k);
    lemma_digit_cell_pattern(number_cells(num, places)[i], m, 0 < places < 8 && i == 7 - places);
}

/// Cells beyond the digits of `|num|` and beyond the decimals stay dark
/// (a point aside), unless a minus sign takes them.
pub proof fn lemma_number_blank_beyond_digits(num: int, places: nat, k: nat)
    requires
        k < 8,
        k >= decimal_digits((if num < 0 { -num } else { num }) as nat).len(),
        k >= places,
        !(num < 0 && k == 7),
    ensures
        number_cells(num, places)[7 - k].bits() & 0x7f == 0,
{
    let n: nat = (if num < 0 { -num } else { num }) as nat;
    let d = decimal_digits(n);
    if n > 0 {
        lemma_decimal_digits_from_right(n);
        lemma_hidden_stays_hidden(n, 0, d.len(), k);
    } else {
        assert(d == seq![48u8]);
        assert(drop_digits(n, 0) == 0);
        lemma_hidden_stays_hidden(n, 0, 0, k);
    }
    assert(!digit_shown(n, places, k));
    let c = number_cells(num, places)[7 - k];
    assert(0u8 | 0x80u8 == 0x80u8) by (bit_vector);
    assert(Segment::Space.dotted() == Segment::Dot);
    assert(c == Segment::Space || c == Segment::Dot);
    assert(0x80u8 & 0x7f == 0 && 0u8 & 0x7f == 0) by (bit_vector);
}

/// A negative number has the minus sign, and only the middle segment, in its
/// leftmost cell.
pub proof fn lemma_negative_number_sign(num: int, places: nat)
    requires
        num < 0,
    ensures
        number_cells(num, places)[0].bits() == crate::patterns::lit(false, false, false, false, false, false, true),
{
}

/// Every one of the first eight bytes of a text shows, in its own cell, the
/// segments listed for it, wherever it stands and whatever the other bytes
/// are; the cells after the text are dark.
pub proof fn lemma_text_cells_show_each_byte(bytes: Seq<u8>, i: int)
    requires
        0 <= i < 8,
    ensures
        i < bytes.len() ==> text_cells(bytes)[i].bits() == spi_pattern(bytes[i] as char),
        i >= bytes.len() ==> text_cells(bytes)[i].bits() == 0,
{
    if i < bytes.len() {
        lemma_spi_glyph_patterns(bytes[i] as char);
    }
}

/// Two texts that agree on byte `i` show the same cell `i`.
pub proof fn lemma_text_cell_depends_on_its_byte_only(b1: Seq<u8>, b2: Seq<u8>, i: int)
    requires
        0 <= i < 8,
        i < b1.len(),
        i < b2.len(),
        b1[i] == b2[i],
    ensures
        text_cells(b1)[i] == text_cells(b2)[i],
{
}

/// In a display buffer, the byte at each digit's memory address (counted
/// from the base address 0xC0) holds that digit's pattern and the byte after
/// it stays 0; the buffer covers exactly the sixteen bytes of display memory.
pub proof fn lemma_buffer_places_cells_at_digit_addresses(cells: Seq<Segment>, pos: int)
    requires
        cells.len() == 8,
        0 <= pos < 8,
    ensures
        cells_buffer(cells).len() == 16,
        cells_buffer(cells)[digit_address(pos) - 0xC0] == cells[pos].bits(),
        cells_buffer(cells)[digit_address(pos) - 0xC0 + 1] == 0,
{
    assert(digit_address(pos) - 0xC0 == 2 * pos);
    assert((2 * pos) / 2 == pos);
    assert((2 * pos) % 2 == 0);
    assert((2 * pos + 1) % 2 == 1);
}

/// Initialisation sends 0x40 (write display memory, auto-increment) and then
/// 0x8F (display on, full brightness); display memory starts at 0xC0.
pub proof fn lemma_init_sequence()
    ensures
        crate::spi::init_sequence() == seq![0x40u8, 0x8Fu8],
        digit_address(0) == 0xC0,
        digit_address(7) == 0xCE,
{
}

} // verus!
