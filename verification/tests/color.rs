use ledstrip::led_control::color::Color;

#[test]
fn rgb_sets_channels_in_order() {
    let c = Color::rgb(1, 2, 3);
    assert_eq!(c.r, 1);
    assert_eq!(c.g, 2);
    assert_eq!(c.b, 3);
}

#[test]
fn black_and_white_are_extremes() {
    let b = Color::black();
    assert_eq!((b.r, b.g, b.b), (0, 0, 0));
    let w = Color::white();
    assert_eq!((w.r, w.g, w.b), (255, 255, 255));
}

#[test]
fn mul_halves_with_rounding() {
    let c = Color::rgb(100, 50, 3);
    let m = c.mul(1, 2);
    assert_eq!((m.r, m.g, m.b), (50, 25, 2));
}

#[test]
fn mul_by_zero_is_black() {
    let m = Color::rgb(255, 128, 7).mul(0, 1000);
    assert_eq!((m.r, m.g, m.b), (0, 0, 0));
}

#[test]
fn mul_by_one_is_identity() {
    let m = Color::rgb(255, 128, 7).mul(1000, 1000);
    assert_eq!((m.r, m.g, m.b), (255, 128, 7));
}

#[test]
fn mul_stays_within_original_channels() {
    let c = Color::rgb(200, 90, 11);
    for num in [0u32, 1, 250, 500, 999, 1000] {
        let m = c.mul(num, 1000);
        assert!(m.r <= c.r && m.g <= c.g && m.b <= c.b);
    }
}

#[test]
fn mul_is_monotonic_in_the_scalar() {
    let c = Color::rgb(231, 100, 17);
    let mut prev = c.mul(0, 1000);
    for num in 1..=1000u32 {
        let cur = c.mul(num, 1000);
        assert!(cur.r >= prev.r && cur.g >= prev.g && cur.b >= prev.b);
        prev = cur;
    }
}

#[test]
fn desaturated_hsv_is_gray_for_every_hue() {
    for h in 0..=255u8 {
        let c = Color::hsv(h, 0, 180);
        assert_eq!(c.r, c.g);
        assert_eq!(c.g, c.b);
    }
}

#[test]
fn hsv_zero_hue_full_sat_is_pure_red() {
    let c = Color::hsv(0, 255, 255);
    assert_eq!(c.r, 255);
    assert_eq!(c.b, 0);
}

#[test]
fn hsv_top_hue_byte_wraps_to_red() {
    // Hue 255 stands for 360 degrees, which is the same hue as 0 degrees.
    let top = Color::hsv(255, 255, 255);
    let zero = Color::hsv(0, 255, 255);
    assert_eq!((top.r, top.g, top.b), (zero.r, zero.g, zero.b));
    assert_eq!((top.r, top.g, top.b), (255, 0, 0));
}

#[test]
fn hsv_value_bounds_channels() {
    for h in (0..=255u8).step_by(17) {
        for s in (0..=255u8).step_by(51) {
            let c = Color::hsv(h, s, 100);
            assert!(c.r <= 100 && c.g <= 100 && c.b <= 100);
            assert!(c.r == 100 || c.g == 100 || c.b == 100);
        }
    }
}
