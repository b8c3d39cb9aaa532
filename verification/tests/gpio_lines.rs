use tm1638::gpio::{
    clear_steps, display_address, display_byte_steps, init_steps, power_up_steps,
    read_buttons_steps, string_steps, Line, Segment, Step, Tm1638Error,
};
use tm1638::spi::display_byte_frame;

/// Runs steps from the given (clk, dio, stb) levels; returns the bytes the
/// chip latches in each strobe frame (8 bits LSB first, the ninth bit dropped)
/// and the ninth bits.
fn frames(steps: &[Step]) -> Vec<Vec<(u8, bool)>> {
    let (mut clk, mut dio, mut stb) = (true, true, true);
    let mut frames: Vec<Vec<(u8, bool)>> = Vec::new();
    let mut bits: Vec<bool> = Vec::new();
    for s in steps {
        match *s {
            Step::Low(Line::Stb) => {
                stb = false;
                frames.push(Vec::new());
                bits.clear();
            }
            Step::High(Line::Stb) => stb = true,
            Step::Low(Line::Clk) => clk = false,
            Step::High(Line::Clk) => {
                if !clk && !stb {
                    bits.push(dio);
                    if bits.len() == 9 {
                        let mut byte = 0u8;
                        for (j, b) in bits[..8].iter().enumerate() {
                            if *b {
                                byte |= 1 << j;
                            }
                        }
                        frames.last_mut().unwrap().push((byte, bits[8]));
                        bits.clear();
                    }
                }
                clk = true;
            }
            Step::Low(Line::Dio) => dio = false,
            Step::High(Line::Dio) => dio = true,
            Step::PauseMicros(us) => assert_eq!(us, 1),
        }
    }
    assert!(stb, "every transfer must end with the strobe released");
    frames
}

#[test]
fn gpio_from_char_table() {
    assert_eq!(Segment::from_char('0'), Segment::Zero);
    assert_eq!(Segment::from_char('9').value(), 0b01101111);
    assert_eq!(Segment::from_char('h'), Segment::H);
    assert_eq!(Segment::from_char('H'), Segment::H);
    assert_eq!(Segment::from_char('s').value(), 0b00110110);
    assert_eq!(Segment::from_char('.'), Segment::Dot);
    assert_eq!(Segment::from_char(' '), Segment::Space);
    assert_eq!(Segment::from_char('W'), Segment::Space);
    assert_eq!(Segment::from_char('K'), Segment::Space);
    assert_eq!(Segment::from_char('O').value(), Segment::from_char('0').value());
}

#[test]
fn gpio_value_table() {
    assert_eq!(Segment::G.value(), 0b00111101);
    assert_eq!(Segment::J.value(), 0b00011110);
    assert_eq!(Segment::U.value(), 0b00111110);
    assert_eq!(Segment::Minus.value(), 0b01000000);
    assert_eq!(Segment::Dot.value(), 0b10000000);
    assert_eq!(Segment::Space.value(), 0);
}

#[test]
fn power_up_releases_all_lines() {
    assert_eq!(
        power_up_steps(),
        vec![Step::High(Line::Stb), Step::High(Line::Clk), Step::High(Line::Dio)]
    );
}

#[test]
fn init_sends_two_commands() {
    let steps = init_steps();
    assert_eq!(frames(&steps), vec![vec![(0x40, true)], vec![(0x8F, true)]]);
    assert_eq!(steps.len(), 2 * (2 + 8 * 6 + 7 + 2));
}

#[test]
fn clear_addresses_then_sends_sixteen_zeros() {
    let f = frames(&clear_steps());
    assert_eq!(f.len(), 2);
    assert_eq!(f[0], vec![(0xC0, true)]);
    assert_eq!(f[1], vec![(0x00, true); 16]);
}

#[test]
fn display_addresses() {
    for pos in 0..8u8 {
        assert_eq!(display_address(pos), 0xC0 + 2 * pos);
        assert_eq!(Some((display_address(pos), 7)), display_byte_frame(pos, 7));
    }
    assert_eq!(display_address(8), 0xD0);
    assert_eq!(display_address(200), 0xC0 | 0x90);
}

#[test]
fn display_byte_sends_address_then_pattern() {
    let f = frames(&display_byte_steps(3, 0b01011011));
    assert_eq!(f, vec![vec![(0xC6, true), (0b01011011, true)]]);
}

#[test]
fn every_byte_is_latched_back() {
    for data in 0..=255u8 {
        let f = frames(&display_byte_steps(0, data));
        assert_eq!(f, vec![vec![(0xC0, true), (data, true)]]);
    }
}

#[test]
fn string_writes_the_first_eight_characters() {
    let f = frames(&string_steps("H1.-lowercase"));
    assert_eq!(f.len(), 8);
    assert_eq!(f[0], vec![(0xC0, true), (0b01110110, true)]);
    assert_eq!(f[1], vec![(0xC2, true), (0b00000110, true)]);
    assert_eq!(f[2], vec![(0xC4, true), (0b10000000, true)]);
    assert_eq!(f[3], vec![(0xC6, true), (0b01000000, true)]);
    assert_eq!(f[4], vec![(0xC8, true), (0b00111000, true)]);
    assert_eq!(f[7], vec![(0xCE, true), (0b01111001, true)]);
    assert!(string_steps("").is_empty());
}

#[test]
fn string_counts_characters_not_bytes() {
    let f = frames(&string_steps("é1"));
    assert_eq!(f, vec![vec![(0xC0, true), (0, true)], vec![(0xC2, true), (0b00000110, true)]]);
}

#[test]
fn read_buttons_reports_nothing_pressed() {
    let (steps, buttons) = read_buttons_steps();
    assert_eq!(buttons, 0);
    let f = frames(&steps);
    assert_eq!(f.len(), 1);
    assert_eq!(f[0][0], (0x42, true));
    let pulses = steps
        .windows(2)
        .filter(|w| w[0] == Step::Low(Line::Clk) && w[1] == Step::PauseMicros(1))
        .count();
    assert_eq!(pulses, 9 + 32);
}

#[test]
fn error_variants() {
    let e = Tm1638Error::CommunicationError(String::from("bus"));
    assert!(matches!(e, Tm1638Error::CommunicationError(ref s) if s == "bus"));
    assert!(matches!(Tm1638Error::WriteError, Tm1638Error::WriteError));
    assert!(matches!(Tm1638Error::DataWriteFailed, Tm1638Error::DataWriteFailed));
}
