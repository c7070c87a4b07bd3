use ledstrip::effects::blink::Blink;
use ledstrip::effects::rainbow::Rainbow;
use ledstrip::effects::spookyeyes::SpookyEyes;
use ledstrip::led_control::controller::LEDController;
use ledstrip::led_control::encoder::PulseTable;

const HZ: u64 = 10_000_000;

#[test]
fn blink_recolors_exactly_once_across_two_ticks() {
    let table = PulseTable::from_clock(HZ).unwrap();
    let mut ctrl = LEDController::new(10, Blink::init(), table);

    // First tick right after construction: under the one-second threshold,
    // so the strip stays black.
    let (frame, err) = ctrl.tick_elapsed(0);
    assert!(err.is_none());
    assert_eq!(frame.len(), 24 * 10 + 1);
    for led in ctrl.segment().leds() {
        let c = led.color();
        assert_eq!((c.r, c.g, c.b), (0, 0, 0));
    }

    // Second tick 1.5 seconds later: one fresh random color on all ten
    // LEDs (halved afterwards by the controller's brightness cap).
    let (frame, err) = ctrl.tick_elapsed(1_500);
    assert!(err.is_none());
    assert_eq!(frame.len(), 24 * 10 + 1);
    let leds = ctrl.segment().leds();
    let first = leds[0].color();
    for led in leds {
        let c = led.color();
        assert_eq!((c.r, c.g, c.b), (first.r, first.g, first.b));
    }
}

#[test]
fn brightness_cap_halves_the_rainbow_output() {
    let table = PulseTable::from_clock(HZ).unwrap();
    // A uniform rainbow paints (255, 0, 0) on its first tick.
    let mut ctrl = LEDController::new(5, Rainbow::init(0, 10), table);
    let (frame, err) = ctrl.tick_elapsed(0);
    assert!(err.is_none());
    for led in ctrl.segment().leds() {
        let c = led.color();
        assert_eq!((c.r, c.g, c.b), (127, 0, 0));
    }
    // 127 is 0b0111_1111: the first red bit is a zero, the next seven ones.
    assert_eq!(frame[0], table.zero);
    for pair in &frame[1..8] {
        assert_eq!(*pair, table.one);
    }
    for pair in &frame[8..24] {
        assert_eq!(*pair, table.zero);
    }
    assert_eq!(frame[24 * 5], table.reset);
}

#[test]
fn all_three_effects_run_through_the_same_controller_interface() {
    let table = PulseTable::from_clock(HZ).unwrap();

    let mut blink_ctrl = LEDController::new(7, Blink::init(), table);
    let (frame, _) = blink_ctrl.tick_elapsed(100);
    assert_eq!(frame.len(), 24 * 7 + 1);

    let mut rainbow_ctrl = LEDController::new(7, Rainbow::init(20, 10), table);
    let (frame, _) = rainbow_ctrl.tick_elapsed(100);
    assert_eq!(frame.len(), 24 * 7 + 1);

    let mut eyes_ctrl = LEDController::new(7, SpookyEyes::init(2, 7), table);
    let (frame, _) = eyes_ctrl.tick_elapsed(100);
    assert_eq!(frame.len(), 24 * 7 + 1);
}

#[test]
fn clock_driven_tick_produces_well_formed_frames() {
    let table = PulseTable::from_clock(HZ).unwrap();
    let mut ctrl = LEDController::new(4, SpookyEyes::init(1, 4), table);
    for _ in 0..3 {
        let (frame, err) = ctrl.tick();
        assert!(err.is_none());
        assert_eq!(frame.len(), 24 * 4 + 1);
        assert_eq!(frame[24 * 4], table.reset);
    }
}
