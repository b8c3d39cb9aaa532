//! The bit-banged TM1638 (clock, data and strobe lines driven directly):
//! its glyphs and the line sequences that carry commands and data.
use vstd::prelude::*;
use vstd::string::StrSliceExecFns;

verus! {

/// Errors that the bit-banged driver reports.
#[derive(Debug)]
pub enum Tm1638Error {
    WriteError,
    DataWriteFailed,
    CommunicationError(String),
}

/// A seven-segment glyph of the bit-banged driver; bit 7 is the decimal point.
#[derive(Debug, Clone, Copy, PartialEq, Eq, Structural)]
pub enum Segment {
    Zero,
    One,
    Two,
    Three,
    Four,
    Five,
    Six,
    Seven,
    Eight,
    Nine,
    A,
    B,
    C,
    D,
    E,
    F,
    G,
    H,
    I,
    J,
    L,
    O,
    P,
    U,
    S,
    Minus,
    Dot,
    Space,
}

impl Segment {
    /// The segment pattern that the chip receives for this glyph.
    pub open spec fn bits(self) -> u8 {
        match self {
            Segment::Zero => 0b00111111,
            Segment::One => 0b00000110,
            Segment::Two => 0b01011011,
            Segment::Three => 0b01001111,
            Segment::Four => 0b01100110,
            Segment::Five => 0b01101101,
            Segment::Six => 0b01111101,
            Segment::Seven => 0b00000111,
            Segment::Eight => 0b01111111,
            Segment::Nine => 0b01101111,
            Segment::A => 0b01110111,
            Segment::B => 0b01111100,
            Segment::C => 0b00111001,
            Segment::D => 0b01011110,
            Segment::E => 0b01111001,
            Segment::F => 0b01110001,
            Segment::G => 0b00111101,
            Segment::H => 0b01110110,
            Segment::I => 0b00110000,
            Segment::J => 0b00011110,
            Segment::L => 0b00111000,
            Segment::O => 0b00111111,
            Segment::P => 0b01110011,
            Segment::U => 0b00111110,
            Segment::S => 0b00110110,
            Segment::Minus => 0b01000000,
            Segment::Dot => 0b10000000,
            Segment::Space => 0b00000000,
        }
    }

    /// The segment pattern of this glyph.
    pub fn value(&self) -> (v: u8)
        ensures
            v == self.bits(),
    {
        match *self {
            Segment::Zero => 0b00111111,
            Segment::One => 0b00000110,
            Segment::Two => 0b01011011,
            Segment::Three => 0b01001111,
            Segment::Four => 0b01100110,
            Segment::Five => 0b01101101,
            Segment::Six => 0b01111101,
            Segment::Seven => 0b00000111,
            Segment::Eight => 0b01111111,
            Segment::Nine => 0b01101111,
            Segment::A => 0b01110111,
            Segment::B => 0b01111100,
            Segment::C => 0b00111001,
            Segment::D => 0b01011110,
            Segment::E => 0b01111001,
            Segment::F => 0b01110001,
            Segment::G => 0b00111101,
            Segment::H => 0b01110110,
            Segment::I => 0b00110000,
            Segment::J => 0b00011110,
            Segment::L => 0b00111000,
            Segment::O => 0b00111111,
            Segment::P => 0b01110011,
            Segment::U => 0b00111110,
            Segment::S => 0b00110110,
            Segment::Minus => 0b01000000,
            Segment::Dot => 0b10000000,
            Segment::Space => 0b00000000,
        }
    }

    /// The glyph for a character; letters of the table in either case,
    /// anything without a glyph as a blank.
    pub fn from_char(c: char) -> (s: Self)
        ensures
            s == glyph_of(c),
    {
        match c {
            '0' => Segment::Zero,
            '1' => Segment::One,
            '2' => Segment::Two,
            '3' => Segment::Three,
            '4' => Segment::Four,
            '5' => Segment::Five,
            '6' => Segment::Six,
            '7' => Segment::Seven,
            '8' => Segment::Eight,
            '9' => Segment::Nine,
            'A' | 'a' => Segment::A,
            'B' | 'b' => Segment::B,
            'C' | 'c' => Segment::C,
            'D' | 'd' => Segment::D,
            'E' | 'e' => Segment::E,
            'F' | 'f' => Segment::F,
            'G' | 'g' => Segment::G,
            'H' | 'h' => Segment::H,
            'I' | 'i' => Segment::I,
            'J' | 'j' => Segment::J,
            'L' | 'l' => Segment::L,
            'O' | 'o' => Segment::O,
            'P' | 'p' => Segment::P,
            'U' | 'u' => Segment::U,
            'S' | 's' => Segment::S,
            '-' => Segment::Minus,
            '.' => Segment::Dot,
            ' ' => Segment::Space,
            _ => Segment::Space,
        }
    }
}

/// The glyph table of the bit-banged driver.
pub open spec fn glyph_of(c: char) -> Segment {
    if c == '0' {
        Segment::Zero
    } else if c == '1' {
        Segment::One
    } else if c == '2' {
        Segment::Two
    } else if c == '3' {
        Segment::Three
    } else if c == '4' {
        Segment::Four
    } else if c == '5' {
        Segment::Five
    } else if c == '6' {
        Segment::Six
    } else if c == '7' {
        Segment::Seven
    } else if c == '8' {
        Segment::Eight
    } else if c == '9' {
        Segment::Nine
    } else if c == 'A' || c == 'a' {
        Segment::A
    } else if c == 'B' || c == 'b' {
        Segment::B
    } else if c == 'C' || c == 'c' {
        Segment::C
    } else if c == 'D' || c == 'd' {
        Segment::D
    } else if c == 'E' || c == 'e' {
        Segment::E
    } else if c == 'F' || c == 'f' {
        Segment::F
    } else if c == 'G' || c == 'g' {
        Segment::G
    } else if c == 'H' || c == 'h' {
        Segment::H
    } else if c == 'I' || c == 'i' {
        Segment::I
    } else if c == 'J' || c == 'j' {
        Segment::J
    } else if c == 'L' || c == 'l' {
        Segment::L
    } else if c == 'O' || c == 'o' {
        Segment::O
    } else if c == 'P' || c == 'p' {
        Segment::P
    } else if c == 'U' || c == 'u' {
        Segment::U
    } else if c == 'S' || c == 's' {
        Segment::S
    } else if c == '-' {
        Segment::Minus
    } else if c == '.' {
        Segment::Dot
    } else {
        Segment::Space
    }
}

/// The three lines between the controller and the chip.
#[derive(Debug, Clone, Copy, PartialEq, Eq, Structural)]
pub enum Line {
    /// Clock: the chip samples the data line on its rising edge.
    Clk,
    /// Data in and out.
    Dio,
    /// Strobe: low while a transfer is under way.
    Stb,
}

/// One thing done on the lines.
#[derive(Debug, Clone, Copy, PartialEq, Eq, Structural)]
pub enum Step {
    /// Drive the line low.
    Low(Line),
    /// Drive the line high.
    High(Line),
    /// Wait the given number of microseconds.
    PauseMicros(u32),
}

/// The settling pause between line changes.
pub open spec fn pause() -> Step {
    Step::PauseMicros(1)
}

/// Whether bit `j` (0 is the least significant) of `data` is set.
pub open spec fn data_bit(data: u8, j: int) -> bool {
    (data >> (j as u8)) & 1u8 == 1u8
}

/// One data bit: clock low, data line set to the bit, clock high.
pub open spec fn bit_steps(high: bool) -> Seq<Step> {
    seq![
        Step::Low(Line::Clk),
        pause(),
        if high { Step::High(Line::Dio) } else { Step::Low(Line::Dio) },
        pause(),
        Step::High(Line::Clk),
        pause(),
    ]
}

/// The lowest `count` bits of `data`, least significant first.
pub open spec fn bits_waveform(data: u8, count: nat) -> Seq<Step>
    decreases count,
{
    if count == 0 {
        Seq::empty()
    } else {
        bits_waveform(data, (count - 1) as nat) + bit_steps(data_bit(data, count - 1))
    }
}

/// The clock pulse after a byte, with the data line released.
pub open spec fn ack_steps() -> Seq<Step> {
    seq![
        Step::Low(Line::Clk),
        pause(),
        Step::High(Line::Dio),
        pause(),
        Step::High(Line::Clk),
        pause(),
        Step::Low(Line::Dio),
    ]
}

/// A whole byte on the lines: eight bits, least significant first, then the
/// closing clock pulse.
pub open spec fn byte_waveform(data: u8) -> Seq<Step> {
    bits_waveform(data, 8) + ack_steps()
}

/// The strobe pulled low, with its pause, to open a transfer.
pub open spec fn open_transfer() -> Seq<Step> {
    seq![Step::Low(Line::Stb), pause()]
}

/// The strobe released, with its pause, to close a transfer.
pub open spec fn close_transfer() -> Seq<Step> {
    seq![Step::High(Line::Stb), pause()]
}

/// A one-byte command transfer.
pub open spec fn command_waveform(cmd: u8) -> Seq<Step> {
    open_transfer() + byte_waveform(cmd) + close_transfer()
}

/// A command followed by one data byte, in one transfer.
pub open spec fn command_with_data_waveform(cmd: u8, data: u8) -> Seq<Step> {
    open_transfer() + byte_waveform(cmd) + byte_waveform(data) + close_transfer()
}

/// Appends one pause.
fn push_pause(steps: &mut Vec<Step>)
    ensures
        final(steps)@ == old(steps)@.push(pause()),
{
    steps.push(Step::PauseMicros(1));
}

/// Appends the line sequence that clocks out `data`.
fn push_byte(steps: &mut Vec<Step>, data: u8)
    ensures
        final(steps)@ == old(steps)@ + byte_waveform(data),
{
    let ghost start = steps@;
    let mut d: u8 = data;
    let mut i: u8 = 0;
    assert(data >> 0u8 == data) by (bit_vector);
    while i < 8
        invariant
            i <= 8,
            d == data >> i,
            steps@ == start + bits_waveform(data, i as nat),
        decreases 8 - i,
    {
        let ghost before = steps@;
        steps.push(Step::Low(Line::Clk));
        push_pause(steps);
        let bit = d & 0x01 != 0;
        if bit {
            steps.push(Step::High(Line::Dio));
        } else {
            steps.push(Step::Low(Line::Dio));
        }
        push_pause(steps);
        steps.push(Step::High(Line::Clk));
        push_pause(steps);
        assert(bit == data_bit(data, i as int)) by {
            assert(d == data >> i);
            assert((data >> i) & 1u8 != 0 <==> (data >> i) & 1u8 == 1u8) by (bit_vector);
        }
        assert(steps@ =~= before + bit_steps(bit));
        assert(bits_waveform(data, (i + 1) as nat) == bits_waveform(data, i as nat) + bit_steps(data_bit(data, i as int)));
        assert(steps@ =~= start + bits_waveform(data, (i + 1) as nat));
        assert((data >> i) >> 1u8 == data >> ((i + 1) as u8)) by (bit_vector)
            requires i < 8;
        d = d >> 1;
        i = i + 1;
    }
    let ghost mid = steps@;
    steps.push(Step::Low(Line::Clk));
    push_pause(steps);
    steps.push(Step::High(Line::Dio));
    push_pause(steps);
    steps.push(Step::High(Line::Clk));
    push_pause(steps);
    steps.push(Step::Low(Line::Dio));
    assert(steps@ =~= mid + ack_steps());
    assert(steps@ =~= start + byte_waveform(data));
}

/// Data command: write display memory, auto-increment address.
pub const DATA_WRITE_COMMAND: u8 = 0x40;

/// Display control command: display on, full brightness.
pub const DISPLAY_ON_COMMAND: u8 = 0x8F;

/// Address command for the first byte of display memory.
pub const DISPLAY_BASE_ADDRESS: u8 = 0xC0;

/// Command that reads the key scan data.
pub const READ_KEYS_COMMAND: u8 = 0x42;

/// `count` copies of the byte `data`, one after another.
pub open spec fn repeated_bytes(data: u8, count: nat) -> Seq<Step>
    decreases count,
{
    if count == 0 {
        Seq::empty()
    } else {
        repeated_bytes(data, (count - 1) as nat) + byte_waveform(data)
    }
}

/// `count` clock pulses that leave the data line alone.
pub open spec fn clock_pulses(count: nat) -> Seq<Step>
    decreases count,
{
    if count == 0 {
        Seq::empty()
    } else {
        clock_pulses((count - 1) as nat) + seq![Step::Low(Line::Clk), pause(), Step::High(Line::Clk), pause()]
    }
}

/// The lines at power-up: all three released high.
pub open spec fn power_up_waveform() -> Seq<Step> {
    seq![Step::High(Line::Stb), Step::High(Line::Clk), Step::High(Line::Dio)]
}

/// Initialisation: the data command, then display on.
pub open spec fn init_waveform() -> Seq<Step> {
    command_waveform(DATA_WRITE_COMMAND) + command_waveform(DISPLAY_ON_COMMAND)
}

/// Clearing: address the first digit, then sixteen zero bytes in one transfer.
pub open spec fn clear_waveform() -> Seq<Step> {
    command_waveform(DISPLAY_BASE_ADDRESS) + open_transfer() + repeated_bytes(0, 16) + close_transfer()
}

/// The display-memory address command for digit `pos`.
pub open spec fn address_of(pos: u8) -> u8 {
    DISPLAY_BASE_ADDRESS | (pos << 1u8)
}

/// Setting digit `pos` to the pattern `value`.
pub open spec fn display_byte_waveform(pos: u8, value: u8) -> Seq<Step> {
    command_with_data_waveform(address_of(pos), value)
}

/// Writing the glyphs of the first `count` characters of `chars` to digits
/// 0, 1, ... in turn.
pub open spec fn text_waveform(chars: Seq<char>, count: nat) -> Seq<Step>
    decreases count,
{
    if count == 0 {
        Seq::empty()
    } else {
        text_waveform(chars, (count - 1) as nat) + display_byte_waveform(
            (count - 1) as u8,
            glyph_of(chars[count - 1]).bits(),
        )
    }
}

/// The key scan: the read command, then 32 clock pulses, in one transfer.
pub open spec fn read_keys_waveform() -> Seq<Step> {
    open_transfer() + byte_waveform(READ_KEYS_COMMAND) + clock_pulses(32) + close_transfer()
}

/// Appends the opening of a transfer.
fn push_open(steps: &mut Vec<Step>)
    ensures
        final(steps)@ == old(steps)@ + open_transfer(),
{
    let ghost start = steps@;
    steps.push(Step::Low(Line::Stb));
    push_pause(steps);
    assert(steps@ =~= start + open_transfer());
}

/// Appends the closing of a transfer.
fn push_close(steps: &mut Vec<Step>)
    ensures
        final(steps)@ == old(steps)@ + close_transfer(),
{
    let ghost start = steps@;
    steps.push(Step::High(Line::Stb));
    push_pause(steps);
    assert(steps@ =~= start + close_transfer());
}

/// Appends a one-byte command transfer.
fn push_command(steps: &mut Vec<Step>, cmd: u8)
    ensures
        final(steps)@ == old(steps)@ + command_waveform(cmd),
{
    let ghost start = steps@;
    push_open(steps);
    push_byte(steps, cmd);
    push_close(steps);
    assert(steps@ =~= start + command_waveform(cmd));
}

/// Appends a command-and-data transfer.
fn push_command_with_data(steps: &mut Vec<Step>, cmd: u8, data: u8)
    ensures
        final(steps)@ == old(steps)@ + command_with_data_waveform(cmd, data),
{
    let ghost start = steps@;
    push_open(steps);
    push_byte(steps, cmd);
    push_byte(steps, data);
    push_close(steps);
    assert(steps@ =~= start + command_with_data_waveform(cmd, data));
}

/// The line levels a new driver sets.
pub fn power_up_steps() -> (steps: Vec<Step>)
    ensures
        steps@ == power_up_waveform(),
{
    let mut steps: Vec<Step> = Vec::new();
    steps.push(Step::High(Line::Stb));
    steps.push(Step::High(Line::Clk));
    steps.push(Step::High(Line::Dio));
    assert(steps@ =~= power_up_waveform());
    steps
}

/// The line sequence that initialises the chip.
pub fn init_steps() -> (steps: Vec<Step>)
    ensures
        steps@ == init_waveform(),
{
    let mut steps: Vec<Step> = Vec::new();
    push_command(&mut steps, DATA_WRITE_COMMAND);
    push_command(&mut steps, DISPLAY_ON_COMMAND);
    assert(steps@ =~= init_waveform());
    steps
}

/// The line sequence that blanks all display memory.
pub fn clear_steps() -> (steps: Vec<Step>)
    ensures
        steps@ == clear_waveform(),
{
    let mut steps: Vec<Step> = Vec::new();
    push_command(&mut steps, DISPLAY_BASE_ADDRESS);
    push_open(&mut steps);
    let ghost mid = steps@;
    for k in 0..16
        invariant
            steps@ == mid + repeated_bytes(0, k as nat),
    {
        push_byte(&mut steps, 0x00);
        assert(steps@ =~= mid + repeated_bytes(0, (k + 1) as nat));
    }
    push_close(&mut steps);
    assert(steps@ =~= clear_waveform());
    steps
}

/// The address command for digit `pos`: the base address with the position
/// in bits 1 to 3 (bits shifted out of the byte are lost).
pub fn display_address(pos: u8) -> (addr: u8)
    ensures
        addr == address_of(pos),
{
    DISPLAY_BASE_ADDRESS | (pos << 1)
}

/// The line sequence that sets digit `pos` to the pattern `value`.
pub fn display_byte_steps(pos: u8, value: u8) -> (steps: Vec<Step>)
    ensures
        steps@ == display_byte_waveform(pos, value),
{
    let mut steps: Vec<Step> = Vec::new();
    let addr = display_address(pos);
    push_command_with_data(&mut steps, addr, value);
    assert(steps@ =~= display_byte_waveform(pos, value));
    steps
}

/// The line sequence that shows `text`: the glyph of each of its first eight
/// characters goes to digits 0, 1, ... in turn; later characters are ignored.
pub fn string_steps(text: &str) -> (steps: Vec<Step>)
    ensures
        steps@ == text_waveform(text@, if text@.len() < 8 { text@.len() } else { 8 }),
{
    let len = text.unicode_len();
    let count: usize = if len < 8 { len } else { 8 };
    let mut steps: Vec<Step> = Vec::new();
    for i in 0..count
        invariant
            count as nat == (if text@.len() < 8 { text@.len() } else { 8 }),
            steps@ == text_waveform(text@, i as nat),
    {
        let ch = text.get_char(i);
        let segment = Segment::from_char(ch);
        let ghost before = steps@;
        push_command_with_data(&mut steps, display_address(i as u8), segment.value());
        assert(steps@ =~= text_waveform(text@, (i + 1) as nat));
    }
    steps
}

/// The line sequence of a key scan, and the key state it yields; the data
/// line is not read back, so no key is ever reported pressed.
pub fn read_buttons_steps() -> (plan: (Vec<Step>, u8))
    ensures
        plan.0@ == read_keys_waveform(),
        plan.1 == 0,
{
    let mut steps: Vec<Step> = Vec::new();
    push_open(&mut steps);
    push_byte(&mut steps, READ_KEYS_COMMAND);
    let ghost mid = steps@;
    for k in 0..32
        invariant
            steps@ == mid + clock_pulses(k as nat),
    {
        steps.push(Step::Low(Line::Clk));
        push_pause(&mut steps);
        steps.push(Step::High(Line::Clk));
        push_pause(&mut steps);
        assert(steps@ =~= mid + clock_pulses((k + 1) as nat));
    }
    push_close(&mut steps);
    assert(steps@ =~= read_keys_waveform());
    let buttons: u8 = 0;
    (steps, buttons)
}

} // verus!
