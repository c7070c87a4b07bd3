use ledstrip::effects::spookyeyes::{
    EyePair, EyeState, SpookyEyes, BLINK_GAP_MS_MAX, BLINK_GAP_MS_MIN, BLINK_MS_MAX, BLINK_MS_MIN,
    CLOSED_MS_MAX, CLOSED_MS_MIN, FADE_TIME_MS, INIT_ON_TIME_MS, ON_MS_MAX, ON_MS_MIN,
};
use ledstrip::effects::Effect;
use ledstrip::led_control::color::Color;
use ledstrip::led_control::segment::Segment;

fn tinted_palette() -> [(u8, u8, u8); 3] {
    // The three palette colors after the 255/224/140-over-255 warm tint,
    // each channel rounded to nearest.
    [(153, 0, 0), (178, 101, 0), (51, 90, 0)]
}

#[test]
fn placement_keeps_pairs_adjacent_in_bounds_and_separated() {
    for _ in 0..20 {
        let e = SpookyEyes::init(10, 50);
        assert!(e.eye_pairs.len() <= 10);
        for p in &e.eye_pairs {
            assert_eq!(p.indices.1, p.indices.0 + 1);
            assert!(p.indices.1 < 50);
        }
        for a in &e.eye_pairs {
            for b in &e.eye_pairs {
                if a.indices.0 != b.indices.0 {
                    let (x, y) = (a.indices.0, b.indices.0);
                    let gap = if x > y { x - y } else { y - x };
                    assert!(gap >= 4, "pairs at {x} and {y} are too close");
                }
            }
        }
    }
}

#[test]
fn placement_that_stops_short_has_no_room_left() {
    for _ in 0..10 {
        // 25 pairs can never fit on 50 LEDs, so the pool must run dry; at
        // that point no candidate position may still keep the two-LED gap.
        let e = SpookyEyes::init(25, 50);
        assert!(e.eye_pairs.len() < 25);
        for x in 0..49usize {
            let blocked = e.eye_pairs.iter().any(|p| {
                let y = p.indices.0;
                let gap = if x > y { x - y } else { y - x };
                gap <= 3
            });
            assert!(blocked, "a pair could still be placed at ({x}, {})", x + 1);
        }
    }
}

#[test]
fn placement_on_a_two_led_strip_fits_one_pair() {
    let e = SpookyEyes::init(5, 2);
    assert_eq!(e.eye_pairs.len(), 1);
    assert_eq!(e.eye_pairs[0].indices, (0, 1));
}

#[test]
fn too_short_a_strip_places_no_pairs() {
    assert_eq!(SpookyEyes::init(3, 0).eye_pairs.len(), 0);
    assert_eq!(SpookyEyes::init(3, 1).eye_pairs.len(), 0);
    assert_eq!(SpookyEyes::init(0, 50).eye_pairs.len(), 0);
}

#[test]
fn every_pair_starts_awake_with_a_tinted_palette_color() {
    for _ in 0..10 {
        let e = SpookyEyes::init(8, 60);
        assert!(!e.eye_pairs.is_empty());
        for p in &e.eye_pairs {
            let c = (p.color.r, p.color.g, p.color.b);
            assert!(tinted_palette().contains(&c), "unexpected eye color {c:?}");
            match p.state {
                EyeState::Opened(on, gap) => {
                    assert_eq!(on, INIT_ON_TIME_MS);
                    assert!((BLINK_GAP_MS_MIN..=BLINK_GAP_MS_MAX).contains(&gap));
                },
                ref other => panic!("fresh pair not awake: {other:?}"),
            }
        }
    }
}

#[test]
fn closed_five_seconds_opens_exactly_on_the_fifth_one_second_tick() {
    let mut s = Segment::new(10);
    let mut p = EyePair {
        indices: (4, 5),
        state: EyeState::Closed(5_000),
        color: Color::rgb(153, 0, 0),
    };
    for tick in 1..=4u64 {
        p.tick(1_000, &mut s);
        match p.state {
            EyeState::Closed(rem) => assert_eq!(rem, 5_000 - tick * 1_000),
            ref other => panic!("opened early on tick {tick}: {other:?}"),
        }
        // a closed pair renders black
        let c = s.color_at(4);
        assert_eq!((c.r, c.g, c.b), (0, 0, 0));
    }
    p.tick(1_000, &mut s);
    match p.state {
        EyeState::Opening(rem) => assert_eq!(rem, FADE_TIME_MS),
        ref other => panic!("not opening after the fifth tick: {other:?}"),
    }
}

#[test]
fn opening_renders_half_intensity_at_half_fade() {
    let mut s = Segment::new(10);
    let mut p = EyePair {
        indices: (2, 3),
        state: EyeState::Opening(2_000),
        color: Color::rgb(200, 100, 40),
    };
    p.tick(1_000, &mut s);
    assert_eq!(p.state, EyeState::Opening(1_000));
    for idx in [2, 3] {
        let c = s.color_at(idx);
        assert_eq!((c.r, c.g, c.b), (100, 50, 20));
    }
}

#[test]
fn opening_completes_into_a_fresh_stare() {
    let mut s = Segment::new(10);
    let mut p = EyePair {
        indices: (0, 1),
        state: EyeState::Opening(500),
        color: Color::rgb(153, 0, 0),
    };
    p.tick(600, &mut s);
    match p.state {
        EyeState::Opened(on, gap) => {
            assert!((ON_MS_MIN..=ON_MS_MAX).contains(&on));
            assert!((BLINK_GAP_MS_MIN..=BLINK_GAP_MS_MAX).contains(&gap));
        },
        ref other => panic!("fade in did not complete: {other:?}"),
    }
    let c = s.color_at(0);
    assert_eq!((c.r, c.g, c.b), (153, 0, 0));
}

#[test]
fn stare_blinks_when_the_blink_countdown_runs_out() {
    let mut s = Segment::new(10);
    let mut p = EyePair {
        indices: (6, 7),
        state: EyeState::Opened(10_000, 1_000),
        color: Color::rgb(153, 0, 0),
    };
    p.tick(1_000, &mut s);
    match p.state {
        EyeState::Blinking(on, blink) => {
            assert_eq!(on, 9_000);
            assert!((BLINK_MS_MIN..=BLINK_MS_MAX).contains(&blink));
        },
        ref other => panic!("no blink: {other:?}"),
    }
    // the boundary tick still renders the stare's color
    let c = s.color_at(6);
    assert_eq!((c.r, c.g, c.b), (153, 0, 0));
}

#[test]
fn blink_is_dark_and_keeps_remaining_on_frozen() {
    let mut s = Segment::new(10);
    let mut p = EyePair {
        indices: (6, 7),
        state: EyeState::Blinking(9_000, 400),
        color: Color::rgb(153, 0, 0),
    };
    p.tick(100, &mut s);
    assert_eq!(p.state, EyeState::Blinking(9_000, 300));
    let c = s.color_at(7);
    assert_eq!((c.r, c.g, c.b), (0, 0, 0));
    p.tick(300, &mut s);
    match p.state {
        EyeState::Opened(on, gap) => {
            assert_eq!(on, 9_000);
            assert!((BLINK_GAP_MS_MIN..=BLINK_GAP_MS_MAX).contains(&gap));
        },
        ref other => panic!("blink did not reopen: {other:?}"),
    }
}

#[test]
fn stare_running_out_starts_the_fade_out() {
    let mut s = Segment::new(10);
    let mut p = EyePair {
        indices: (0, 1),
        state: EyeState::Opened(800, 20_000),
        color: Color::rgb(178, 101, 0),
    };
    p.tick(1_000, &mut s);
    assert_eq!(p.state, EyeState::Closing(FADE_TIME_MS));
    // the boundary tick still renders the stare's color
    let c = s.color_at(1);
    assert_eq!((c.r, c.g, c.b), (178, 101, 0));
}

#[test]
fn closing_fades_and_finally_sleeps() {
    let mut s = Segment::new(10);
    let mut p = EyePair {
        indices: (0, 1),
        state: EyeState::Closing(2_000),
        color: Color::rgb(200, 100, 40),
    };
    p.tick(1_000, &mut s);
    assert_eq!(p.state, EyeState::Closing(1_000));
    let c = s.color_at(0);
    assert_eq!((c.r, c.g, c.b), (100, 50, 20));
    p.tick(1_500, &mut s);
    match p.state {
        EyeState::Closed(rem) => assert!((CLOSED_MS_MIN..=CLOSED_MS_MAX).contains(&rem)),
        ref other => panic!("fade out did not complete: {other:?}"),
    }
    let c = s.color_at(0);
    assert_eq!((c.r, c.g, c.b), (0, 0, 0));
}

#[test]
fn waking_pair_draws_a_fresh_tinted_palette_color() {
    for _ in 0..10 {
        let mut s = Segment::new(10);
        let mut p = EyePair {
            indices: (4, 5),
            state: EyeState::Closed(100),
            color: Color::rgb(1, 2, 3),
        };
        p.tick(100, &mut s);
        assert_eq!(p.state, EyeState::Opening(FADE_TIME_MS));
        let c = (p.color.r, p.color.g, p.color.b);
        assert!(tinted_palette().contains(&c), "unexpected eye color {c:?}");
    }
}

#[test]
fn pair_writes_beyond_the_segment_are_tolerated() {
    let mut s = Segment::new(4);
    // the second index lands one past the configured length
    let mut p = EyePair {
        indices: (3, 4),
        state: EyeState::Opened(10_000, 20_000),
        color: Color::rgb(153, 0, 0),
    };
    p.tick(100, &mut s);
    let c = s.color_at(3);
    assert_eq!((c.r, c.g, c.b), (153, 0, 0));
    assert_eq!(s.leds().len(), 4);
}

#[test]
fn whole_effect_paints_every_pair_and_nothing_else() {
    let mut e = SpookyEyes::init(6, 40);
    let mut s = Segment::new(40);
    e.tick(&mut s, 0).unwrap();
    let mut painted = vec![false; 40];
    for p in &e.eye_pairs {
        // pairs start awake, so both eyes show the pair's color
        for idx in [p.indices.0, p.indices.1] {
            let c = s.color_at(idx);
            assert_eq!((c.r, c.g, c.b), (p.color.r, p.color.g, p.color.b));
            painted[idx] = true;
        }
    }
    for (idx, was_painted) in painted.iter().enumerate() {
        if !was_painted {
            let c = s.color_at(idx);
            assert_eq!((c.r, c.g, c.b), (0, 0, 0));
        }
    }
}
