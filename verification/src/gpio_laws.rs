//! What the chip receives from the bit-banged line sequences, and how the two
//! drivers agree on display addresses.
use vstd::prelude::*;
use crate::gpio::{
    Step, Line, pause, data_bit, bit_steps, bits_waveform, ack_steps, byte_waveform,
    open_transfer, close_transfer, command_waveform, command_with_data_waveform, address_of,
    display_byte_waveform, text_waveform, glyph_of, repeated_bytes, clock_pulses,
    power_up_waveform, init_waveform, clear_waveform, read_keys_waveform,
};
use crate::patterns::{gpio_pattern, lemma_gpio_glyph_patterns};
use crate::spi::digit_address;

verus! {

/// The levels of the three lines.
pub struct LineLevels {
    pub clk: bool,
    pub dio: bool,
    pub stb: bool,
}

/// The levels after one step.
pub open spec fn after_step(l: LineLevels, s: Step) -> LineLevels {
    match s {
        Step::Low(Line::Clk) => LineLevels { clk: false, ..l },
        Step::High(Line::Clk) => LineLevels { clk: true, ..l },
        Step::Low(Line::Dio) => LineLevels { dio: false, ..l },
        Step::High(Line::Dio) => LineLevels { dio: true, ..l },
        Step::Low(Line::Stb) => LineLevels { stb: false, ..l },
        Step::High(Line::Stb) => LineLevels { stb: true, ..l },
        Step::PauseMicros(_) => l,
    }
}

/// The levels after a sequence of steps.
pub open spec fn after_steps(steps: Seq<Step>, l: LineLevels) -> LineLevels
    decreases steps.len(),
{
    if steps.len() == 0 {
        l
    } else {
        after_steps(steps.drop_first(), after_step(l, steps[0]))
    }
}

/// The bits the chip latches: the data line at each rising clock edge that
/// comes while the strobe is low.
pub open spec fn latched_bits(steps: Seq<Step>, l: LineLevels) -> Seq<bool>
    decreases steps.len(),
{
    if steps.len() == 0 {
        Seq::empty()
    } else {
        let here = if steps[0] == Step::High(Line::Clk) && !l.clk && !l.stb {
            seq![l.dio]
        } else {
            Seq::empty()
        };
        here + latched_bits(steps.drop_first(), after_step(l, steps[0]))
    }
}

/// What the chip latches for one byte: its bits, least significant first,
/// then the released data line on the closing pulse.
pub open spec fn byte_bits(data: u8) -> Seq<bool> {
    Seq::new(8, |j: int| data_bit(data, j)).push(true)
}

/// Latching and levels over two sequences run one after the other.
pub proof fn lemma_run_concat(a: Seq<Step>, b: Seq<Step>, l: LineLevels)
    ensures
        latched_bits(a + b, l) == latched_bits(a, l) + latched_bits(b, after_steps(a, l)),
        after_steps(a + b, l) == after_steps(b, after_steps(a, l)),
    decreases a.len(),
{
    if a.len() == 0 {
        assert(a + b =~= b);
    } else {
        let l1 = after_step(l, a[0]);
        lemma_run_concat(a.drop_first(), b, l1);
        assert((a + b).drop_first() =~= a.drop_first() + b);
        assert((a + b)[0] == a[0]);
        let here = if a[0] == Step::High(Line::Clk) && !l.clk && !l.stb {
            seq![l.dio]
        } else {
            Seq::<bool>::empty()
        };
        assert(latched_bits(a + b, l) == here + latched_bits(a.drop_first() + b, l1));
        assert(latched_bits(a, l) == here + latched_bits(a.drop_first(), l1));
        assert(here + (latched_bits(a.drop_first(), l1) + latched_bits(b, after_steps(a.drop_first(), l1)))
            =~= (here + latched_bits(a.drop_first(), l1)) + latched_bits(b, after_steps(a.drop_first(), l1)));
    }
}

/// One data bit, sent while the strobe is low, is latched as that bit.
proof fn lemma_bit_latched(high: bool, l: LineLevels)
    requires
        !l.stb,
    ensures
        latched_bits(bit_steps(high), l) == seq![high],
        !after_steps(bit_steps(high), l).stb,
{
    let s = bit_steps(high);
    reveal_with_fuel(latched_bits, 7);
    reveal_with_fuel(after_steps, 7);
    assert(s.drop_first() =~= seq![pause(), s[2], pause(), Step::High(Line::Clk), pause()]);
    assert(s.drop_first().drop_first() =~= seq![s[2], pause(), Step::High(Line::Clk), pause()]);
    assert(s.drop_first().drop_first().drop_first() =~= seq![pause(), Step::High(Line::Clk), pause()]);
    assert(s.drop_first().drop_first().drop_first().drop_first() =~= seq![Step::High(Line::Clk), pause()]);
    assert(s.drop_first().drop_first().drop_first().drop_first().drop_first() =~= seq![pause()]);
    assert(s.drop_first().drop_first().drop_first().drop_first().drop_first().drop_first() =~= Seq::<Step>::empty());
    assert(latched_bits(bit_steps(high), l) =~= seq![high]);
}

/// The lowest `count` bits, sent while the strobe is low, are latched in
/// order, least significant first.
proof fn lemma_bits_latched(data: u8, count: nat, l: LineLevels)
    requires
        !l.stb,
        count <= 8,
    ensures
        latched_bits(bits_waveform(data, count), l) == Seq::new(count, |j: int| data_bit(data, j)),
        !after_steps(bits_waveform(data, count), l).stb,
    decreases count,
{
    if count == 0 {
        assert(latched_bits(Seq::<Step>::empty(), l) =~= Seq::<bool>::empty());
    } else {
        let prev = bits_waveform(data, (count - 1) as nat);
        lemma_bits_latched(data, (count - 1) as nat, l);
        let mid = after_steps(prev, l);
        lemma_run_concat(prev, bit_steps(data_bit(data, count - 1)), l);
        lemma_bit_latched(data_bit(data, count - 1), mid);
        assert(latched_bits(bits_waveform(data, count), l) =~= Seq::new(count, |j: int| data_bit(data, j)));
    }
}

/// The closing pulse of a byte, sent while the strobe is low, latches the
/// released (high) data line.
proof fn lemma_ack_latched(l: LineLevels)
    requires
        !l.stb,
    ensures
        latched_bits(ack_steps(), l) == seq![true],
        !after_steps(ack_steps(), l).stb,
        !after_steps(ack_steps(), l).dio,
{
    let s = ack_steps();
    reveal_with_fuel(latched_bits, 8);
    reveal_with_fuel(after_steps, 8);
    assert(s.drop_first() =~= seq![pause(), Step::High(Line::Dio), pause(), Step::High(Line::Clk), pause(), Step::Low(Line::Dio)]);
    assert(s.drop_first().drop_first() =~= seq![Step::High(Line::Dio), pause(), Step::High(Line::Clk), pause(), Step::Low(Line::Dio)]);
    assert(s.drop_first().drop_first().drop_first() =~= seq![pause(), Step::High(Line::Clk), pause(), Step::Low(Line::Dio)]);
    assert(s.drop_first().drop_first().drop_first().drop_first() =~= seq![Step::High(Line::Clk), pause(), Step::Low(Line::Dio)]);
    assert(s.drop_first().drop_first().drop_first().drop_first().drop_first() =~= seq![pause(), Step::Low(Line::Dio)]);
    assert(s.drop_first().drop_first().drop_first().drop_first().drop_first().drop_first() =~= seq![Step::Low(Line::Dio)]);
    assert(s.drop_first().drop_first().drop_first().drop_first().drop_first().drop_first().drop_first() =~= Seq::<Step>::empty());
    assert(latched_bits(ack_steps(), l) =~= seq![true]);
}

/// A byte sent while the strobe is low is latched as its eight bits, least
/// significant first, then the closing high bit; the strobe stays low.
pub proof fn lemma_byte_latched(data: u8, l: LineLevels)
    requires
        !l.stb,
    ensures
        latched_bits(byte_waveform(data), l) == byte_bits(data),
        !after_steps(byte_waveform(data), l).stb,
        !after_steps(byte_waveform(data), l).dio,
{
    lemma_bits_latched(data, 8, l);
    lemma_run_concat(bits_waveform(data, 8), ack_steps(), l);
    lemma_ack_latched(after_steps(bits_waveform(data, 8), l));
    assert(latched_bits(byte_waveform(data), l) =~= byte_bits(data));
}

/// Opening a transfer latches nothing and leaves the strobe low.
proof fn lemma_open_transfer(l: LineLevels)
    ensures
        latched_bits(open_transfer(), l) == Seq::<bool>::empty(),
        !after_steps(open_transfer(), l).stb,
{
    reveal_with_fuel(latched_bits, 3);
    reveal_with_fuel(after_steps, 3);
    assert(open_transfer().drop_first() =~= seq![pause()]);
    assert(open_transfer().drop_first().drop_first() =~= Seq::<Step>::empty());
    assert(latched_bits(open_transfer(), l) =~= Seq::<bool>::empty());
}

/// Closing a transfer latches nothing and releases the strobe.
proof fn lemma_close_transfer(l: LineLevels)
    ensures
        latched_bits(close_transfer(), l) == Seq::<bool>::empty(),
        after_steps(close_transfer(), l).stb,
{
    reveal_with_fuel(latched_bits, 3);
    reveal_with_fuel(after_steps, 3);
    assert(close_transfer().drop_first() =~= seq![pause()]);
    assert(close_transfer().drop_first().drop_first() =~= Seq::<Step>::empty());
    assert(latched_bits(close_transfer(), l) =~= Seq::<bool>::empty());
}

/// From whatever levels it starts, a command transfer makes the chip latch
/// exactly the command's bits (least significant first, then the closing
/// bit) and ends with the strobe released.
pub proof fn lemma_command_delivered(cmd: u8, l: LineLevels)
    ensures
        latched_bits(command_waveform(cmd), l) == byte_bits(cmd),
        after_steps(command_waveform(cmd), l).stb,
{
    let o = open_transfer();
    let b = byte_waveform(cmd);
    let c = close_transfer();
    lemma_open_transfer(l);
    let l1 = after_steps(o, l);
    lemma_byte_latched(cmd, l1);
    let l2 = after_steps(b, l1);
    lemma_close_transfer(l2);
    lemma_run_concat(o, b, l);
    lemma_run_concat(o + b, c, l);
    assert(latched_bits(command_waveform(cmd), l) =~= byte_bits(cmd));
}

/// From whatever levels it starts, a command-and-data transfer makes the chip
/// latch the command's bits and then the data's bits, in one strobe frame.
pub proof fn lemma_command_with_data_delivered(cmd: u8, data: u8, l: LineLevels)
    ensures
        latched_bits(command_with_data_waveform(cmd, data), l) == byte_bits(cmd) + byte_bits(data),
        after_steps(command_with_data_waveform(cmd, data), l).stb,
{
    let o = open_transfer();
    let b1 = byte_waveform(cmd);
    let b2 = byte_waveform(data);
    let c = close_transfer();
    lemma_open_transfer(l);
    let l1 = after_steps(o, l);
    lemma_byte_latched(cmd, l1);
    let l2 = after_steps(b1, l1);
    lemma_byte_latched(data, l2);
    let l3 = after_steps(b2, l2);
    lemma_close_transfer(l3);
    lemma_run_concat(o, b1, l);
    lemma_run_concat(o + b1, b2, l);
    lemma_run_concat(o + b1 + b2, c, l);
    assert(latched_bits(command_with_data_waveform(cmd, data), l) =~= byte_bits(cmd) + byte_bits(data));
}

/// Different bytes are latched as different bit sequences: the chip can tell
/// every byte apart.
pub proof fn lemma_latched_bits_determine_byte(d1: u8, d2: u8)
    requires
        byte_bits(d1) == byte_bits(d2),
    ensures
        d1 == d2,
{
    assert forall|j: int| 0 <= j < 8 implies data_bit(d1, j) == data_bit(d2, j) by {
        let s1 = Seq::new(8, |i: int| data_bit(d1, i));
        let s2 = Seq::new(8, |i: int| data_bit(d2, i));
        assert(byte_bits(d1)[j] == s1.push(true)[j]);
        assert(s1.push(true)[j] == s1[j]);
        assert(s2.push(true)[j] == s2[j]);
        assert(byte_bits(d1)[j] == byte_bits(d2)[j]);
    }
    assert(data_bit(d1, 0) == data_bit(d2, 0));
    assert(data_bit(d1, 1) == data_bit(d2, 1));
    assert(data_bit(d1, 2) == data_bit(d2, 2));
    assert(data_bit(d1, 3) == data_bit(d2, 3));
    assert(data_bit(d1, 4) == data_bit(d2, 4));
    assert(data_bit(d1, 5) == data_bit(d2, 5));
    assert(data_bit(d1, 6) == data_bit(d2, 6));
    assert(data_bit(d1, 7) == data_bit(d2, 7));
    assert(d1 == d2) by (bit_vector)
        requires
            ((d1 >> 0u8) & 1u8 == 1u8) == ((d2 >> 0u8) & 1u8 == 1u8),
            ((d1 >> 1u8) & 1u8 == 1u8) == ((d2 >> 1u8) & 1u8 == 1u8),
            ((d1 >> 2u8) & 1u8 == 1u8) == ((d2 >> 2u8) & 1u8 == 1u8),
            ((d1 >> 3u8) & 1u8 == 1u8) == ((d2 >> 3u8) & 1u8 == 1u8),
            ((d1 >> 4u8) & 1u8 == 1u8) == ((d2 >> 4u8) & 1u8 == 1u8),
            ((d1 >> 5u8) & 1u8 == 1u8) == ((d2 >> 5u8) & 1u8 == 1u8),
            ((d1 >> 6u8) & 1u8 == 1u8) == ((d2 >> 6u8) & 1u8 == 1u8),
            ((d1 >> 7u8) & 1u8 == 1u8) == ((d2 >> 7u8) & 1u8 == 1u8),
    ;
}

/// Setting a digit delivers its address command and then the pattern.
pub proof fn lemma_display_byte_delivered(pos: u8, value: u8, l: LineLevels)
    ensures
        latched_bits(display_byte_waveform(pos, value), l) == byte_bits(address_of(pos)) + byte_bits(value),
{
    lemma_command_with_data_delivered(address_of(pos), value, l);
}

/// For each of the eight digits, the bit-banged driver addresses the same
/// display-memory byte as the SPI driver.
pub proof fn lemma_drivers_agree_on_addresses(pos: u8)
    requires
        pos <= 7,
    ensures
        address_of(pos) as int == digit_address(pos as int),
{
    assert(pos <= 7 ==> 0xC0u8 | (pos << 1u8) == 0xC0u8 + 2 * pos) by (bit_vector);
}

/// What the chip should latch for the first `count` characters of a text:
/// for each character `i` in turn, every one (spaces included), the address
/// of digit `i` (`0xC0 + 2 i`) and then the segments listed for it.
pub open spec fn text_frames_bits(chars: Seq<char>, count: nat) -> Seq<bool>
    decreases count,
{
    if count == 0 {
        Seq::empty()
    } else {
        text_frames_bits(chars, (count - 1) as nat) + byte_bits((0xC0 + 2 * (count - 1)) as u8)
            + byte_bits(gpio_pattern(chars[count - 1]))
    }
}

/// Writing a text delivers one address-and-pattern frame per character, for
/// each of its first characters (at most eight), to digits 0, 1, ... in turn.
pub proof fn lemma_text_delivered(chars: Seq<char>, count: nat, l: LineLevels)
    requires
        count <= 8,
        count <= chars.len(),
    ensures
        latched_bits(text_waveform(chars, count), l) == text_frames_bits(chars, count),
    decreases count,
{
    if count > 0 {
        let prev = text_waveform(chars, (count - 1) as nat);
        lemma_text_delivered(chars, (count - 1) as nat, l);
        let pos = (count - 1) as u8;
        let value = glyph_of(chars[count - 1]).bits();
        lemma_run_concat(prev, display_byte_waveform(pos, value), l);
        lemma_display_byte_delivered(pos, value, after_steps(prev, l));
        lemma_drivers_agree_on_addresses(pos);
        assert(address_of(pos) == (0xC0 + 2 * (count - 1)) as u8);
        lemma_gpio_glyph_patterns(chars[count - 1]);
        assert(latched_bits(text_waveform(chars, count), l) =~= text_frames_bits(chars, count));
    }
}

/// At power-up all three lines are released high and nothing is latched.
pub proof fn lemma_power_up_releases_lines(l: LineLevels)
    ensures
        after_steps(power_up_waveform(), l) == (LineLevels { clk: true, dio: true, stb: true }),
        latched_bits(power_up_waveform(), l) == Seq::<bool>::empty(),
{
    let s = power_up_waveform();
    reveal_with_fuel(latched_bits, 4);
    reveal_with_fuel(after_steps, 4);
    assert(s.drop_first() =~= seq![Step::High(Line::Clk), Step::High(Line::Dio)]);
    assert(s.drop_first().drop_first() =~= seq![Step::High(Line::Dio)]);
    assert(s.drop_first().drop_first().drop_first() =~= Seq::<Step>::empty());
    assert(latched_bits(s, l) =~= Seq::<bool>::empty());
}

/// Initialisation delivers two command frames: 0x40 (write display memory,
/// auto-increment), then 0x8F (display on, full brightness).
pub proof fn lemma_init_delivered(l: LineLevels)
    ensures
        latched_bits(init_waveform(), l) == byte_bits(0x40) + byte_bits(0x8F),
{
    let a = command_waveform(0x40);
    let b = command_waveform(0x8F);
    lemma_command_delivered(0x40, l);
    lemma_command_delivered(0x8F, after_steps(a, l));
    lemma_run_concat(a, b, l);
}

/// `count` copies of the bits of one byte.
pub open spec fn repeated_byte_bits(data: u8, count: nat) -> Seq<bool>
    decreases count,
{
    if count == 0 {
        Seq::empty()
    } else {
        repeated_byte_bits(data, (count - 1) as nat) + byte_bits(data)
    }
}

/// Repeated bytes sent while the strobe is low are latched one after another.
proof fn lemma_repeated_bytes_latched(data: u8, count: nat, l: LineLevels)
    requires
        !l.stb,
    ensures
        latched_bits(repeated_bytes(data, count), l) == repeated_byte_bits(data, count),
        !after_steps(repeated_bytes(data, count), l).stb,
    decreases count,
{
    if count == 0 {
        assert(latched_bits(Seq::<Step>::empty(), l) =~= Seq::<bool>::empty());
    } else {
        let prev = repeated_bytes(data, (count - 1) as nat);
        lemma_repeated_bytes_latched(data, (count - 1) as nat, l);
        lemma_run_concat(prev, byte_waveform(data), l);
        lemma_byte_latched(data, after_steps(prev, l));
    }
}

/// Clearing delivers the address command 0xC0 and then, in a second frame,
/// sixteen zero bytes: all display memory is blanked.
pub proof fn lemma_clear_delivered(l: LineLevels)
    ensures
        latched_bits(clear_waveform(), l) == byte_bits(0xC0) + repeated_byte_bits(0, 16),
        after_steps(clear_waveform(), l).stb,
{
    let a = command_waveform(0xC0);
    let o = open_transfer();
    let z = repeated_bytes(0, 16);
    let c = close_transfer();
    lemma_command_delivered(0xC0, l);
    let l1 = after_steps(a, l);
    lemma_open_transfer(l1);
    let l2 = after_steps(o, l1);
    lemma_repeated_bytes_latched(0, 16, l2);
    let l3 = after_steps(z, l2);
    lemma_close_transfer(l3);
    lemma_run_concat(a, o, l);
    lemma_run_concat(a + o, z, l);
    lemma_run_concat(a + o + z, c, l);
    assert(latched_bits(clear_waveform(), l) =~= byte_bits(0xC0) + repeated_byte_bits(0, 16));
}

/// Clock pulses with the strobe and data lines low latch zeros.
proof fn lemma_clock_pulses_latched(count: nat, l: LineLevels)
    requires
        !l.stb,
        !l.dio,
    ensures
        latched_bits(clock_pulses(count), l) == Seq::new(count, |i: int| false),
        !after_steps(clock_pulses(count), l).stb,
        !after_steps(clock_pulses(count), l).dio,
    decreases count,
{
    if count == 0 {
        assert(latched_bits(Seq::<Step>::empty(), l) =~= Seq::new(0, |i: int| false));
    } else {
        let prev = clock_pulses((count - 1) as nat);
        lemma_clock_pulses_latched((count - 1) as nat, l);
        let p = seq![Step::Low(Line::Clk), pause(), Step::High(Line::Clk), pause()];
        let m = after_steps(prev, l);
        lemma_run_concat(prev, p, l);
        reveal_with_fuel(latched_bits, 5);
        reveal_with_fuel(after_steps, 5);
        assert(p.drop_first() =~= seq![pause(), Step::High(Line::Clk), pause()]);
        assert(p.drop_first().drop_first() =~= seq![Step::High(Line::Clk), pause()]);
        assert(p.drop_first().drop_first().drop_first() =~= seq![pause()]);
        assert(p.drop_first().drop_first().drop_first().drop_first() =~= Seq::<Step>::empty());
        assert(latched_bits(p, m) =~= seq![false]);
        assert(latched_bits(clock_pulses(count), l) =~= Seq::new(count, |i: int| false));
    }
}

/// The key scan delivers the read command 0x42, then clocks 32 bits in the
/// same frame with the data line left low.
pub proof fn lemma_key_scan_delivered(l: LineLevels)
    ensures
        latched_bits(read_keys_waveform(), l) == byte_bits(0x42) + Seq::new(32, |i: int| false),
        after_steps(read_keys_waveform(), l).stb,
{
    let o = open_transfer();
    let b = byte_waveform(0x42);
    let p = clock_pulses(32);
    let c = close_transfer();
    lemma_open_transfer(l);
    let l1 = after_steps(o, l);
    lemma_byte_latched(0x42, l1);
    let l2 = after_steps(b, l1);
    lemma_clock_pulses_latched(32, l2);
    let l3 = after_steps(p, l2);
    lemma_close_transfer(l3);
    lemma_run_concat(o, b, l);
    lemma_run_concat(o + b, p, l);
    lemma_run_concat(o + b + p, c, l);
    assert(latched_bits(read_keys_waveform(), l) =~= byte_bits(0x42) + Seq::new(32, |i: int| false));
}

} // verus!
