use ledstrip::led_control::color::Color;
use ledstrip::led_control::led::Led;
use ledstrip::led_control::segment::Segment;

#[test]
fn led_starts_black_and_holds_what_is_set() {
    let mut led = Led::new();
    let c = led.color();
    assert_eq!((c.r, c.g, c.b), (0, 0, 0));
    led.set(Color::rgb(9, 8, 7));
    let c = led.color();
    assert_eq!((c.r, c.g, c.b), (9, 8, 7));
    led.turn_off();
    let c = led.color();
    assert_eq!((c.r, c.g, c.b), (0, 0, 0));
}

#[test]
fn new_segment_is_all_black_with_requested_length() {
    let s = Segment::new(5);
    assert_eq!(s.leds().len(), 5);
    for led in s.leds() {
        let c = led.color();
        assert_eq!((c.r, c.g, c.b), (0, 0, 0));
    }
}

#[test]
fn set_all_paints_every_led() {
    let mut s = Segment::new(4);
    s.set_all(Color::rgb(1, 2, 3));
    for led in s.leds() {
        let c = led.color();
        assert_eq!((c.r, c.g, c.b), (1, 2, 3));
    }
    s.turn_off();
    for led in s.leds() {
        let c = led.color();
        assert_eq!((c.r, c.g, c.b), (0, 0, 0));
    }
}

#[test]
fn set_led_writes_inside_the_segment() {
    let mut s = Segment::new(3);
    s.set_led(1, Color::rgb(4, 5, 6));
    let c = s.color_at(1);
    assert_eq!((c.r, c.g, c.b), (4, 5, 6));
    let c = s.color_at(0);
    assert_eq!((c.r, c.g, c.b), (0, 0, 0));
}

#[test]
fn set_led_beyond_the_end_is_a_silent_no_op() {
    let mut s = Segment::new(3);
    s.set_led(3, Color::rgb(4, 5, 6));
    s.set_led(1000, Color::rgb(4, 5, 6));
    assert_eq!(s.leds().len(), 3);
    for led in s.leds() {
        let c = led.color();
        assert_eq!((c.r, c.g, c.b), (0, 0, 0));
    }
}

#[test]
fn position_wise_writes_cover_the_whole_segment() {
    let mut s = Segment::new(3);
    for idx in 0..s.leds().len() {
        s.set_led(idx, Color::rgb(7, 7, 7));
    }
    assert_eq!(s.leds().len(), 3);
    for led in s.leds() {
        let c = led.color();
        assert_eq!((c.r, c.g, c.b), (7, 7, 7));
    }
}
