//! The SPI-attached TM1638: glyphs, display-memory encoding and frames.
use vstd::prelude::*;
use vstd::string::StringSliceAdditionalSpecFns;

verus! {

/// A seven-segment glyph; bit 7 of its pattern is the decimal point.
#[derive(Debug, Clone, Copy, PartialEq, Eq, Structural)]
pub enum Segment {
    Digit0,
    Digit1,
    Digit2,
    Digit3,
    Digit4,
    Digit5,
    Digit6,
    Digit7,
    Digit8,
    Digit9,
    A,
    B,
    C,
    D,
    E,
    F,
    Minus,
    Space,
    Dot,
    /// Any other segment pattern, such as a glyph with its decimal point lit.
    Pattern(u8),
}

impl Segment {
    /// The segment pattern that the chip receives for this glyph.
    pub open spec fn bits(self) -> u8 {
        match self {
            Segment::Digit0 => 0b00111111,
            Segment::Digit1 => 0b00000110,
            Segment::Digit2 => 0b01011011,
            Segment::Digit3 => 0b01001111,
            Segment::Digit4 => 0b01100110,
            Segment::Digit5 => 0b01101101,
            Segment::Digit6 => 0b01111101,
            Segment::Digit7 => 0b00000111,
            Segment::Digit8 => 0b01111111,
            Segment::Digit9 => 0b01101111,
            Segment::A => 0b01110111,
            Segment::B => 0b01111100,
            Segment::C => 0b00111001,
            Segment::D => 0b01011110,
            Segment::E => 0b01111001,
            Segment::F => 0b01110001,
            Segment::Minus => 0b01000000,
            Segment::Space => 0b00000000,
            Segment::Dot => 0b10000000,
            Segment::Pattern(p) => p,
        }
    }

    /// The segment pattern of this glyph.
    pub fn value(&self) -> (v: u8)
        ensures
            v == self.bits(),
    {
        match *self {
            Segment::Digit0 => 0b00111111,
            Segment::Digit1 => 0b00000110,
            Segment::Digit2 => 0b01011011,
            Segment::Digit3 => 0b01001111,
            Segment::Digit4 => 0b01100110,
            Segment::Digit5 => 0b01101101,
            Segment::Digit6 => 0b01111101,
            Segment::Digit7 => 0b00000111,
            Segment::Digit8 => 0b01111111,
            Segment::Digit9 => 0b01101111,
            Segment::A => 0b01110111,
            Segment::B => 0b01111100,
            Segment::C => 0b00111001,
            Segment::D => 0b01011110,
            Segment::E => 0b01111001,
            Segment::F => 0b01110001,
            Segment::Minus => 0b01000000,
            Segment::Space => 0b00000000,
            Segment::Dot => 0b10000000,
            Segment::Pattern(p) => p,
        }
    }
}

/// ASCII upper-casing: `'a'..='z'` become `'A'..='Z'`, every other char stays.
pub open spec fn ascii_upper(c: char) -> char {
    if 'a' <= c && c <= 'z' {
        ((c as int) - 32) as char
    } else {
        c
    }
}

/// The glyph table, indexed by upper-case character.
pub open spec fn glyph_for(c: char) -> Segment {
    if c == '0' {
        Segment::Digit0
    } else if c == '1' {
        Segment::Digit1
    } else if c == '2' {
        Segment::Digit2
    } else if c == '3' {
        Segment::Digit3
    } else if c == '4' {
        Segment::Digit4
    } else if c == '5' {
        Segment::Digit5
    } else if c == '6' {
        Segment::Digit6
    } else if c == '7' {
        Segment::Digit7
    } else if c == '8' {
        Segment::Digit8
    } else if c == '9' {
        Segment::Digit9
    } else if c == 'A' {
        Segment::A
    } else if c == 'B' {
        Segment::B
    } else if c == 'C' {
        Segment::C
    } else if c == 'D' {
        Segment::D
    } else if c == 'E' {
        Segment::E
    } else if c == 'F' {
        Segment::F
    } else if c == '-' {
        Segment::Minus
    } else {
        Segment::Space
    }
}

/// The glyph shown for a character: the table entry of its ASCII upper case.
pub open spec fn char_glyph(c: char) -> Segment {
    glyph_for(ascii_upper(c))
}

impl Segment {
    /// The glyph with its decimal point lit.
    pub open spec fn dotted(self) -> Segment {
        let p = self.bits() | 0x80;
        if p == 0x80 {
            Segment::Dot
        } else {
            Segment::Pattern(p)
        }
    }

    /// The glyph for a character, letters taken case-insensitively; characters
    /// without a glyph show as a blank.
    pub fn from_char(c: char) -> (s: Self)
        ensures
            s == char_glyph(c),
    {
        match c {
            '0' => Segment::Digit0,
            '1' => Segment::Digit1,
            '2' => Segment::Digit2,
            '3' => Segment::Digit3,
            '4' => Segment::Digit4,
            '5' => Segment::Digit5,
            '6' => Segment::Digit6,
            '7' => Segment::Digit7,
            '8' => Segment::Digit8,
            '9' => Segment::Digit9,
            'A' | 'a' => Segment::A,
            'B' | 'b' => Segment::B,
            'C' | 'c' => Segment::C,
            'D' | 'd' => Segment::D,
            'E' | 'e' => Segment::E,
            'F' | 'f' => Segment::F,
            '-' => Segment::Minus,
            _ => Segment::Space,
        }
    }

    /// The same glyph with the decimal point (bit 7) lit.
    pub fn with_dot(self) -> (s: Self)
        ensures
            s == self.dotted(),
            s.bits() == self.bits() | 0x80,
    {
        let val = self.value();
        let p = val | 0b10000000;
        if p == 0b10000000 {
            Segment::Dot
        } else {
            Segment::Pattern(p)
        }
    }
}

/// The display memory for eight cells, left to right: cell `i` fills byte
/// `2 i` with its pattern, and byte `2 i + 1` stays 0.
pub open spec fn cells_buffer(cells: Seq<Segment>) -> Seq<u8> {
    Seq::new(16, |j: int| if j % 2 == 0 { cells[j / 2].bits() } else { 0u8 })
}

/// The cells for a text: its first eight bytes, each read as a character,
/// then blanks.
pub open spec fn text_cells(bytes: Seq<u8>) -> Seq<Segment> {
    Seq::new(8, |i: int| if i < bytes.len() { char_glyph(bytes[i] as char) } else { Segment::Space })
}

/// Lays eight cells out as display memory.
pub fn cells_to_buffer(cells: &[Segment; 8]) -> (buffer: [u8; 16])
    ensures
        buffer@ == cells_buffer(cells@),
{
    let mut buffer = [0u8; 16];
    for i in 0..8
        invariant
            forall|j: int| 0 <= j < 2 * i ==> buffer@[j] == #[trigger] cells_buffer(cells@)[j],
            forall|j: int| 2 * i <= j < 16 ==> buffer@[j] == 0,
    {
        buffer[i * 2] = cells[i].value();
        buffer[i * 2 + 1] = 0;
    }
    assert(buffer@ =~= cells_buffer(cells@));
    buffer
}

/// The display memory that shows `text`: the glyphs of its first eight bytes,
/// each byte read as a character, padded with blanks.
pub fn text_buffer(text: &str) -> (buffer: [u8; 16])
    ensures
        buffer@ == cells_buffer(text_cells(text.spec_bytes())),
{
    let chars = text.as_bytes();
    let mut cells = [Segment::Space; 8];
    for i in 0..8
        invariant
            chars@ == text.spec_bytes(),
            forall|j: int| 0 <= j < i ==> cells@[j] == #[trigger] text_cells(chars@)[j],
    {
        let segment = if i < chars.len() {
            Segment::from_char(chars[i] as char)
        } else {
            Segment::Space
        };
        cells[i] = segment;
    }
    assert(cells@ =~= text_cells(chars@));
    cells_to_buffer(&cells)
}

/// The glyph of a decimal digit.
pub open spec fn digit_glyph(d: nat) -> Segment {
    if d == 0 {
        Segment::Digit0
    } else if d == 1 {
        Segment::Digit1
    } else if d == 2 {
        Segment::Digit2
    } else if d == 3 {
        Segment::Digit3
    } else if d == 4 {
        Segment::Digit4
    } else if d == 5 {
        Segment::Digit5
    } else if d == 6 {
        Segment::Digit6
    } else if d == 7 {
        Segment::Digit7
    } else if d == 8 {
        Segment::Digit8
    } else if d == 9 {
        Segment::Digit9
    } else {
        Segment::Space
    }
}

/// `n` with its `k` lowest decimal digits removed (`n / 10^k`).
pub open spec fn drop_digits(n: nat, k: nat) -> nat
    decreases k,
{
    if k == 0 {
        n
    } else {
        drop_digits(n, (k - 1) as nat) / 10
    }
}

/// Whether the cell `k` places from the right shows a digit of `n`: it does
/// while `n` still has digits there, and always within the `places` decimals.
pub open spec fn digit_shown(n: nat, places: nat, k: nat) -> bool {
    drop_digits(n, k) != 0 || k < places
}

/// The cell `k` places from the right, before the point and sign are added.
pub open spec fn magnitude_cell(n: nat, places: nat, k: nat) -> Segment {
    if digit_shown(n, places, k) {
        digit_glyph(drop_digits(n, k) % 10)
    } else {
        Segment::Space
    }
}

/// Cell `i` (left to right) of `num` shown with `places` decimals: the digits
/// of `|num|` right-aligned, the point lit on the cell `places` from the right
/// (for 0 < `places` < 8), and a minus sign in the leftmost cell of a
/// negative number.
pub open spec fn number_cell(num: int, places: nat, i: int) -> Segment {
    let n = (if num < 0 { -num } else { num }) as nat;
    let base = magnitude_cell(n, places, (7 - i) as nat);
    let marked = if 0 < places < 8 && i == 7 - places {
        base.dotted()
    } else {
        base
    };
    if num < 0 && i == 0 {
        Segment::Minus
    } else {
        marked
    }
}

/// The eight cells that show `num` with `places` decimals.
pub open spec fn number_cells(num: int, places: nat) -> Seq<Segment> {
    Seq::new(8, |i: int| number_cell(num, places, i))
}

/// Once a cell shows no digit, no cell further left does.
pub proof fn lemma_hidden_stays_hidden(n: nat, places: nat, k: nat, j: nat)
    requires
        !digit_shown(n, places, k),
        k <= j,
    ensures
        !digit_shown(n, places, j),
    decreases j - k,
{
    if k < j {
        lemma_hidden_stays_hidden(n, places, k, (j - 1) as nat);
    }
}

/// The display memory that shows `num` with `decimal_places` decimals.
/// `num` must not be `i32::MIN` (its magnitude overflows) and
/// `decimal_places` must not be 8 (the point position underflows).
pub fn number_buffer(num: i32, decimal_places: usize) -> (buffer: [u8; 16])
    requires
        num != i32::MIN,
        decimal_places != 8,
    ensures
        buffer@ == cells_buffer(number_cells(num as int, decimal_places as nat)),
{
    let mut digits = [Segment::Space; 8];
    let is_negative = num < 0;
    let mut n: i32 = if is_negative { -num } else { num };
    let ghost mag: nat = n as nat;
    let ghost places: nat = decimal_places as nat;
    let mut pos: usize = 7;
    let mut k: usize = 0;
    while k < 8
        invariant
            k <= 8,
            pos == (if k < 8 { 7 - k } else { 0 }),
            n >= 0,
            n as nat == drop_digits(mag, k as nat),
            places == decimal_places,
            forall|j: nat| j < k ==> digit_shown(mag, places, j),
            forall|i: int|
                0 <= i < 8 ==> #[trigger] digits@[i] == (if 7 - i < k {
                    digit_glyph(drop_digits(mag, (7 - i) as nat) % 10)
                } else {
                    Segment::Space
                }),
        ensures
            forall|i: int| 0 <= i < 8 ==> #[trigger] digits@[i] == magnitude_cell(mag, places, (7 - i) as nat),
        decreases 8 - k,
    {
        if n == 0 && k >= decimal_places {
            assert forall|i: int| 0 <= i < 8 implies #[trigger] digits@[i] == magnitude_cell(mag, places, (7 - i) as nat) by {
                if 7 - i >= k {
                    lemma_hidden_stays_hidden(mag, places, k as nat, (7 - i) as nat);
                }
            }
            break;
        }
        let digit = (n % 10) as u8;
        digits[pos] = match digit {
            0 => Segment::Digit0,
            1 => Segment::Digit1,
            2 => Segment::Digit2,
            3 => Segment::Digit3,
            4 => Segment::Digit4,
            5 => Segment::Digit5,
            6 => Segment::Digit6,
            7 => Segment::Digit7,
            8 => Segment::Digit8,
            9 => Segment::Digit9,
            _ => Segment::Space,
        };
        n = n / 10;
        if pos > 0 {
            pos = pos - 1;
        }
        k = k + 1;
    }
    if decimal_places > 0 && decimal_places <= 8 {
        let dot_pos = 7 - decimal_places;
        if dot_pos <= 7 {
            digits[dot_pos] = digits[dot_pos].with_dot();
        }
    }
    if is_negative {
        digits[0] = Segment::Minus;
    }
    assert(digits@ =~= number_cells(num as int, places));
    cells_to_buffer(&digits)
}

/// Data command: write display memory, auto-increment address.
pub const DATA_WRITE_COMMAND: u8 = 0x40;

/// Display control command: display on, full brightness.
pub const DISPLAY_ON_COMMAND: u8 = 0x8F;

/// Address command for the first byte of display memory.
pub const DISPLAY_BASE_ADDRESS: u8 = 0xC0;

/// Command that reads the key scan data.
pub const READ_KEYS_COMMAND: u8 = 0x42;

/// Pause after each initialisation command, in microseconds.
pub const INIT_PAUSE_MICROS: u64 = 100;

/// Pause before a display-memory transfer, in nanoseconds.
pub const BUFFER_PAUSE_NANOS: u64 = 100;

/// The commands that initialise the chip, in the order they are sent.
pub open spec fn init_sequence() -> Seq<u8> {
    seq![DATA_WRITE_COMMAND, DISPLAY_ON_COMMAND]
}

/// The commands that initialise the chip, in the order they are sent; each is
/// followed by a pause of `INIT_PAUSE_MICROS`, and then the display is cleared.
pub fn init_commands() -> (commands: [u8; 2])
    ensures
        commands@ == init_sequence(),
{
    let commands = [DATA_WRITE_COMMAND, DISPLAY_ON_COMMAND];
    assert(commands@ =~= init_sequence());
    commands
}

/// Display memory that shows nothing.
pub fn blank_buffer() -> (buffer: [u8; 16])
    ensures
        buffer@ == Seq::new(16, |i: int| 0u8),
{
    let buffer = [0u8; 16];
    assert(buffer@ =~= Seq::new(16, |i: int| 0u8));
    buffer
}

/// The address of the display-memory byte that holds the pattern of digit
/// `pos` (0 is the leftmost of the eight digits).
pub open spec fn digit_address(pos: int) -> int {
    DISPLAY_BASE_ADDRESS + 2 * pos
}

/// The (address, data) frame that sets digit `pos` to the pattern `value`;
/// none for a position beyond the eighth digit.
pub fn display_byte_frame(pos: u8, value: u8) -> (frame: Option<(u8, u8)>)
    ensures
        pos > 7 ==> frame is None,
        pos <= 7 ==> frame == Some((digit_address(pos as int) as u8, value)),
{
    if pos > 7 {
        return None;
    }
    let addr = DISPLAY_BASE_ADDRESS + (pos * 2);
    Some((addr, value))
}

/// The (address, data) frames that carry a display buffer, in order: every
/// byte goes to the base address.
pub fn buffer_frames(buffer: &[u8; 16]) -> (frames: Vec<(u8, u8)>)
    ensures
        frames@.len() == 16,
        forall|i: int| 0 <= i < 16 ==> #[trigger] frames@[i] == (DISPLAY_BASE_ADDRESS, buffer@[i]),
{
    let mut frames: Vec<(u8, u8)> = Vec::new();
    for i in 0..16
        invariant
            frames@.len() == i,
            forall|j: int| 0 <= j < i ==> #[trigger] frames@[j] == (DISPLAY_BASE_ADDRESS, buffer@[j]),
    {
        frames.push((DISPLAY_BASE_ADDRESS, buffer[i]));
    }
    frames
}

/// A TM1638 reached through the transport `Asyn` (in the firmware, an SPI
/// device that frames each transfer with the strobe line).
pub struct TM1638SPI<Asyn> {
    asyn: Asyn,
}

impl<Asyn> TM1638SPI<Asyn> {
    /// The transport the driver talks through.
    pub closed spec fn transport(&self) -> Asyn {
        self.asyn
    }

    /// A driver over the transport `spi`.
    pub fn new(spi: Asyn) -> (display: Self)
        ensures
            display.transport() == spi,
    {
        Self { asyn: spi }
    }

    /// The transport, to carry out the transfers that the driver plans.
    pub fn transport_mut(&mut self) -> (link: &mut Asyn)
        ensures
            *link == old(self).transport(),
            final(self).transport() == *final(link),
    {
        &mut self.asyn
    }
}

} // verus!
