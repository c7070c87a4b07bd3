use ledstrip::led_control::color::Color;
use ledstrip::led_control::encoder::{
    encode_frame, EncodingError, PinLevel, PulseTable, PulseTableCell,
};
use ledstrip::led_control::segment::Segment;

// A 10 MHz transmission clock: one tick per 100 ns.
const HZ: u64 = 10_000_000;

#[test]
fn table_ticks_match_the_protocol_windows_at_ten_megahertz() {
    let t = PulseTable::from_clock(HZ).unwrap();
    assert_eq!(t.clock_hz, HZ);
    assert_eq!(t.one.first.level, PinLevel::High);
    assert_eq!(t.one.first.ticks, 12); // 1200 ns
    assert_eq!(t.one.second.level, PinLevel::Low);
    assert_eq!(t.one.second.ticks, 13); // 1300 ns
    assert_eq!(t.zero.first.level, PinLevel::High);
    assert_eq!(t.zero.first.ticks, 5); // 500 ns
    assert_eq!(t.zero.second.level, PinLevel::Low);
    assert_eq!(t.zero.second.ticks, 20); // 2000 ns
    assert_eq!(t.reset.first.level, PinLevel::Low);
    assert_eq!(t.reset.first.ticks, 600); // 60 us
    assert_eq!(t.reset.second.level, PinLevel::Low);
    assert_eq!(t.reset.second.ticks, 10); // 1 us
}

#[test]
fn table_refuses_a_clock_whose_reset_overruns_the_tick_counter() {
    // At 10^12 Hz the 60 us reset would need 6 * 10^7 ticks.
    assert_eq!(
        PulseTable::from_clock(1_000_000_000_000),
        Err(EncodingError::PulseOutOfRange)
    );
}

#[test]
fn all_black_segment_encodes_as_zero_patterns_and_one_reset() {
    let t = PulseTable::from_clock(HZ).unwrap();
    let s = Segment::new(3);
    let frame = encode_frame(&s, &t);
    assert_eq!(frame.len(), 24 * 3 + 1);
    for pair in &frame[..72] {
        assert_eq!(*pair, t.zero);
    }
    assert_eq!(frame[72], t.reset);
}

#[test]
fn all_white_segment_encodes_as_one_patterns_and_one_reset() {
    let t = PulseTable::from_clock(HZ).unwrap();
    let mut s = Segment::new(3);
    s.set_all(Color::white());
    let frame = encode_frame(&s, &t);
    assert_eq!(frame.len(), 24 * 3 + 1);
    for pair in &frame[..72] {
        assert_eq!(*pair, t.one);
    }
    assert_eq!(frame[72], t.reset);
}

#[test]
fn channels_are_sent_in_rgb_order_most_significant_bit_first() {
    let t = PulseTable::from_clock(HZ).unwrap();
    let mut s = Segment::new(1);
    s.set_led(0, Color::rgb(0b1000_0000, 0, 0b1111_1111));
    let frame = encode_frame(&s, &t);
    assert_eq!(frame.len(), 25);
    // red: only the most significant bit set
    assert_eq!(frame[0], t.one);
    for pair in &frame[1..8] {
        assert_eq!(*pair, t.zero);
    }
    // green: all dark
    for pair in &frame[8..16] {
        assert_eq!(*pair, t.zero);
    }
    // blue: all set
    for pair in &frame[16..24] {
        assert_eq!(*pair, t.one);
    }
    assert_eq!(frame[24], t.reset);
}

#[test]
fn table_cell_lets_only_the_first_writer_win() {
    let mut cell = PulseTableCell::empty();
    assert!(cell.get().is_none());
    let first = PulseTable::from_clock(HZ).unwrap();
    let second = PulseTable::from_clock(HZ / 2).unwrap();
    assert!(cell.set(first));
    assert!(!cell.set(second));
    let held = cell.get().unwrap();
    assert_eq!(held, first);
    assert_eq!(held.clock_hz, HZ);
}
