use ledstrip::effects::blink::{Blink, BLINK_INTERVAL_MS};
use ledstrip::effects::Effect;
use ledstrip::led_control::segment::Segment;

#[test]
fn blink_waits_a_full_second_before_recoloring() {
    assert_eq!(BLINK_INTERVAL_MS, 1_000);
    let mut e = Blink::init();
    let mut s = Segment::new(10);

    // 500 + 400 milliseconds: still under the threshold, strip stays black.
    e.tick(&mut s, 500).unwrap();
    e.tick(&mut s, 400).unwrap();
    for led in s.leds() {
        let c = led.color();
        assert_eq!((c.r, c.g, c.b), (0, 0, 0));
    }

    // 200 more cross the threshold: one fresh color on every LED.
    e.tick(&mut s, 200).unwrap();
    assert_eq!(e.since_change_ms, 0);
    let first = s.color_at(0);
    for led in s.leds() {
        let c = led.color();
        assert_eq!((c.r, c.g, c.b), (first.r, first.g, first.b));
    }

    // Exactly at the threshold nothing happens: a crossing must be strict.
    let before: Vec<(u8, u8, u8)> = s.leds().iter().map(|l| {
        let c = l.color();
        (c.r, c.g, c.b)
    }).collect();
    e.tick(&mut s, 1_000).unwrap();
    assert_eq!(e.since_change_ms, 1_000);
    let after: Vec<(u8, u8, u8)> = s.leds().iter().map(|l| {
        let c = l.color();
        (c.r, c.g, c.b)
    }).collect();
    assert_eq!(before, after);
}
