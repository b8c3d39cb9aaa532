use tm1638::spi::{
    blank_buffer, buffer_frames, display_byte_frame, init_commands, number_buffer, text_buffer,
    Segment, TM1638SPI, DISPLAY_BASE_ADDRESS,
};

fn cells(buffer: &[u8; 16]) -> [u8; 8] {
    let mut out = [0u8; 8];
    for i in 0..8 {
        out[i] = buffer[2 * i];
        assert_eq!(buffer[2 * i + 1], 0, "odd byte {} must stay clear", 2 * i + 1);
    }
    out
}

const D: [u8; 10] = [
    0b00111111, 0b00000110, 0b01011011, 0b01001111, 0b01100110, 0b01101101, 0b01111101,
    0b00000111, 0b01111111, 0b01101111,
];
const MINUS: u8 = 0b01000000;
const DOT: u8 = 0b10000000;

#[test]
fn from_char_maps_digits_and_hex_letters() {
    let digits = ['0', '1', '2', '3', '4', '5', '6', '7', '8', '9'];
    for (i, c) in digits.iter().enumerate() {
        assert_eq!(Segment::from_char(*c).value(), D[i]);
    }
    assert_eq!(Segment::from_char('A'), Segment::A);
    assert_eq!(Segment::from_char('f'), Segment::F);
    assert_eq!(Segment::from_char('c').value(), 0b00111001);
    assert_eq!(Segment::from_char('-'), Segment::Minus);
    assert_eq!(Segment::from_char('G'), Segment::Space);
    assert_eq!(Segment::from_char('.'), Segment::Space);
    assert_eq!(Segment::from_char('é'), Segment::Space);
}

#[test]
fn from_char_ignores_case() {
    for (lower, upper) in [('a', 'A'), ('b', 'B'), ('c', 'C'), ('d', 'D'), ('e', 'E'), ('f', 'F'), ('z', 'Z')] {
        assert_eq!(Segment::from_char(lower), Segment::from_char(upper));
    }
}

#[test]
fn hex_digits_have_distinct_patterns() {
    let hex = "0123456789ABCDEF";
    let values: Vec<u8> = hex.chars().map(|c| Segment::from_char(c).value()).collect();
    for i in 0..16 {
        assert_ne!(values[i], 0);
        for j in 0..i {
            assert_ne!(values[i], values[j]);
        }
    }
}

#[test]
fn value_table() {
    assert_eq!(Segment::Digit8.value(), 0b01111111);
    assert_eq!(Segment::E.value(), 0b01111001);
    assert_eq!(Segment::Minus.value(), MINUS);
    assert_eq!(Segment::Space.value(), 0);
    assert_eq!(Segment::Dot.value(), DOT);
    assert_eq!(Segment::Pattern(0x5A).value(), 0x5A);
}

#[test]
fn with_dot_lights_the_point() {
    assert_eq!(Segment::Space.with_dot(), Segment::Dot);
    assert_eq!(Segment::Dot.with_dot(), Segment::Dot);
    assert_eq!(Segment::Digit3.with_dot().value(), 0b11001111);
    assert_eq!(Segment::Digit3.with_dot(), Segment::Pattern(0b11001111));
    for s in [Segment::Digit0, Segment::A, Segment::Minus, Segment::Space, Segment::Dot] {
        let dotted = s.with_dot();
        assert_eq!(dotted.value(), s.value() | 0x80);
        assert_eq!(dotted.with_dot(), dotted);
    }
}

#[test]
fn text_buffer_hello() {
    let b = text_buffer("HELLO   ");
    // Only E has a glyph among H, E, L, L, O.
    assert_eq!(cells(&b), [0, 0b01111001, 0, 0, 0, 0, 0, 0]);
}

#[test]
fn text_buffer_good_is_right_aligned_text() {
    let b = text_buffer("    GOOD");
    assert_eq!(cells(&b), [0, 0, 0, 0, 0, 0, 0, 0b01011110]);
}

#[test]
fn text_buffer_pads_and_truncates() {
    assert_eq!(cells(&text_buffer("ab")), [0b01110111, 0b01111100, 0, 0, 0, 0, 0, 0]);
    assert_eq!(cells(&text_buffer("0123456789")), [D[0], D[1], D[2], D[3], D[4], D[5], D[6], D[7]]);
    assert_eq!(text_buffer(""), [0u8; 16]);
}

#[test]
fn text_buffer_reads_bytes_not_chars() {
    // 'é' is two bytes in UTF-8; each byte takes a cell of its own.
    assert_eq!(cells(&text_buffer("é1")), [0, 0, D[1], 0, 0, 0, 0, 0]);
}

#[test]
fn number_with_two_decimals() {
    let b = number_buffer(12345, 2);
    assert_eq!(cells(&b), [0, 0, 0, D[1], D[2], D[3] | DOT, D[4], D[5]]);
}

#[test]
fn number_whole() {
    assert_eq!(cells(&number_buffer(25, 0)), [0, 0, 0, 0, 0, 0, D[2], D[5]]);
}

#[test]
fn number_negative() {
    assert_eq!(cells(&number_buffer(-52, 0)), [MINUS, 0, 0, 0, 0, 0, D[5], D[2]]);
    assert_eq!(cells(&number_buffer(-1234, 2)), [MINUS, 0, 0, 0, D[1], D[2] | DOT, D[3], D[4]]);
}

#[test]
fn number_zero_without_decimals_is_blank() {
    assert_eq!(number_buffer(0, 0), [0u8; 16]);
}

#[test]
fn number_small_with_decimals_shows_leading_zeros() {
    assert_eq!(cells(&number_buffer(0, 2)), [0, 0, 0, 0, 0, DOT, D[0], D[0]]);
    assert_eq!(cells(&number_buffer(7, 3)), [0, 0, 0, 0, DOT, D[0], D[0], D[7]]);
}

#[test]
fn number_keeps_the_lowest_eight_digits() {
    assert_eq!(cells(&number_buffer(123456789, 0)), [D[2], D[3], D[4], D[5], D[6], D[7], D[8], D[9]]);
    assert_eq!(cells(&number_buffer(i32::MAX, 0)), [D[4], D[7], D[4], D[8], D[3], D[6], D[4], D[7]]);
}

#[test]
fn number_minus_overwrites_the_leftmost_cell() {
    assert_eq!(cells(&number_buffer(-123456789, 0)), [MINUS, D[3], D[4], D[5], D[6], D[7], D[8], D[9]]);
    assert_eq!(cells(&number_buffer(-5, 7)), [MINUS, D[0], D[0], D[0], D[0], D[0], D[0], D[5]]);
}

#[test]
fn number_decimals_beyond_the_display_show_no_point() {
    assert_eq!(cells(&number_buffer(5, 9)), [D[0], D[0], D[0], D[0], D[0], D[0], D[0], D[5]]);
}

#[test]
fn number_reads_as_right_aligned_text() {
    assert_eq!(number_buffer(25, 0), text_buffer("      25"));
    assert_eq!(number_buffer(-52, 0), text_buffer("-     52"));
    assert_eq!(number_buffer(98765432, 0), text_buffer("98765432"));
    assert_eq!(number_buffer(-9876543, 0), text_buffer("-9876543"));
}

#[test]
fn exactly_one_point_for_decimals() {
    for places in 1..8usize {
        let b = number_buffer(4321, places);
        let cs = cells(&b);
        for i in 0..8 {
            assert_eq!(cs[i] & DOT != 0, i == 7 - places, "places {} cell {}", places, i);
        }
    }
}

#[test]
fn display_byte_frames() {
    assert_eq!(display_byte_frame(0, 0x3F), Some((0xC0, 0x3F)));
    assert_eq!(display_byte_frame(3, 0x06), Some((0xC6, 0x06)));
    assert_eq!(display_byte_frame(7, 0xFF), Some((0xCE, 0xFF)));
    assert_eq!(display_byte_frame(8, 0x01), None);
    assert_eq!(display_byte_frame(255, 0x01), None);
}

#[test]
fn buffer_frames_send_every_byte_to_the_base_address() {
    let b = number_buffer(12345, 2);
    let frames = buffer_frames(&b);
    assert_eq!(frames.len(), 16);
    for i in 0..16 {
        assert_eq!(frames[i], (DISPLAY_BASE_ADDRESS, b[i]));
    }
}

#[test]
fn init_and_clear() {
    assert_eq!(init_commands(), [0x40, 0x8F]);
    assert_eq!(blank_buffer(), [0u8; 16]);
}

#[test]
fn driver_keeps_its_transport() {
    let mut display = TM1638SPI::new(vec![1u8, 2]);
    display.transport_mut().push(3);
    assert_eq!(*display.transport_mut(), vec![1u8, 2, 3]);
}
