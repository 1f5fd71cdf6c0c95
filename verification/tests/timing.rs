use fellini::{frame_to_pts, ConcreteEncoderSettings, EncoderSettings, Pixel, Profile, Rational};

#[test]
fn pts_of_first_frame_at_24_fps() {
    assert_eq!(frame_to_pts(1, 24, 90_000), 3750);
}

#[test]
fn pts_of_first_frame_at_30_fps() {
    assert_eq!(frame_to_pts(1, 30, 90_000), 3000);
}

#[test]
fn pts_of_frame_zero_is_zero() {
    assert_eq!(frame_to_pts(0, 24, 90_000), 0);
    assert_eq!(frame_to_pts(0, 1, 0), 0);
    assert_eq!(frame_to_pts(0, 60, 1), 0);
}

#[test]
fn pts_strictly_increases_when_a_frame_lasts_a_tick() {
    let mut last = frame_to_pts(0, 24, 90_000);
    for i in 1..500 {
        let next = frame_to_pts(i, 24, 90_000);
        assert!(last < next, "frame {}", i);
        last = next;
    }
    let mut last = frame_to_pts(0, 7, 7);
    for i in 1..50 {
        let next = frame_to_pts(i, 7, 7);
        assert!(last < next);
        last = next;
    }
}

#[test]
fn pts_collides_when_a_frame_is_shorter_than_a_tick() {
    // 24 frames per second counted in whole seconds: frames 0 to 11 share a tick.
    assert_eq!(frame_to_pts(0, 24, 1), 0);
    assert_eq!(frame_to_pts(1, 24, 1), 0);
    assert_eq!(frame_to_pts(11, 24, 1), 0);
    assert_eq!(frame_to_pts(12, 24, 1), 1);
}

#[test]
fn pts_rounds_to_the_nearest_tick() {
    // 1/3 s at 10 ticks per second is 3.33 ticks
    assert_eq!(frame_to_pts(1, 3, 10), 3);
    // 2/3 s is 6.67 ticks
    assert_eq!(frame_to_pts(2, 3, 10), 7);
    // 1001/30000-style rates: frame 1 at 29.97 fps in 90 kHz is 3003 ticks
    assert_eq!(frame_to_pts(1001, 30_000, 90_000), 3003);
}

#[test]
fn pts_rounds_halves_away_from_zero() {
    assert_eq!(frame_to_pts(1, 2, 1), 1);
    assert_eq!(frame_to_pts(3, 2, 1), 2);
    assert_eq!(frame_to_pts(-1, 2, 1), -1);
    assert_eq!(frame_to_pts(-3, 2, 1), -2);
    assert_eq!(frame_to_pts(1, 2, -1), -1);
}

#[test]
fn pts_of_negative_arguments() {
    assert_eq!(frame_to_pts(-1, 24, 90_000), -3750);
    assert_eq!(frame_to_pts(-2, 3, 10), -7);
    assert_eq!(frame_to_pts(-2, 3, -10), 7);
}

#[test]
fn pts_is_limited_to_the_range_of_i64() {
    assert_eq!(frame_to_pts(i64::MAX, 1, 2), i64::MAX);
    assert_eq!(frame_to_pts(i64::MAX, 1, i64::MAX), i64::MAX);
    assert_eq!(frame_to_pts(i64::MIN, 1, 2), i64::MIN);
    assert_eq!(frame_to_pts(i64::MIN, 1, i64::MIN), i64::MAX);
    assert_eq!(frame_to_pts(i64::MAX, 1, 1), i64::MAX);
    assert_eq!(frame_to_pts(i64::MIN, 1, 1), i64::MIN);
    assert_eq!(frame_to_pts(i64::MAX, i64::MAX, 1), 1);
    assert_eq!(frame_to_pts(i64::MAX, 2, 1), 4_611_686_018_427_387_904);
}

#[test]
fn pts_is_exact_for_large_frame_indices() {
    // A float would lose the low bits of this product.
    let index: i64 = 9_007_199_254_740_993; // 2^53 + 1
    assert_eq!(frame_to_pts(index, 1, 1), index);
    assert_eq!(frame_to_pts(index, 3, 3), index);
    assert_eq!(frame_to_pts(3_000_000_000_001, 24, 90_000), 11_250_000_000_003_750);
}

#[test]
fn settings_update_lays_overrides_over_defaults() {
    let defaults = Profile::Av1.default_settings();
    assert_eq!(defaults.frame_rate, Rational(24, 1));
    assert_eq!(defaults.time_base, Rational(1, 90_000));
    assert_eq!(defaults.pixel_format, Pixel::YUV420P);
    assert_eq!(defaults.audio_sample_rate, 44_100);
    assert!(!defaults.audio_enabled);

    let unchanged = defaults.update(EncoderSettings::default());
    assert_eq!(unchanged, defaults);

    let overrides = EncoderSettings {
        frame_rate: Some(Rational(30, 1)),
        time_base: None,
        pixel_format: Some(Pixel::YUVA420P),
        audio_sample_rate: Some(48_000),
    };
    let updated = defaults.update(overrides);
    assert_eq!(
        updated,
        ConcreteEncoderSettings {
            frame_rate: Rational(30, 1),
            time_base: Rational(1, 90_000),
            pixel_format: Pixel::YUVA420P,
            audio_sample_rate: 48_000,
            audio_enabled: false,
        }
    );

    let only_time_base = EncoderSettings {
        frame_rate: None,
        time_base: Some(Rational(1, 1000)),
        pixel_format: None,
        audio_sample_rate: None,
    };
    let updated = Profile::H264.default_settings().update(only_time_base);
    assert_eq!(updated.time_base, Rational(1, 1000));
    assert_eq!(updated.frame_rate, Rational(24, 1));
    assert!(updated.audio_enabled);
}

#[test]
fn settings_default_overrides_are_all_absent() {
    let none = EncoderSettings::default();
    assert_eq!(none.frame_rate, None);
    assert_eq!(none.time_base, None);
    assert_eq!(none.pixel_format, None);
    assert_eq!(none.audio_sample_rate, None);
}

#[test]
fn settings_pts_uses_both_rationals() {
    let defaults = Profile::Av1.default_settings();
    assert!(defaults.is_valid());
    assert_eq!(defaults.pts(0), 0);
    assert_eq!(defaults.pts(1), 3750);
    assert_eq!(defaults.pts(48), 180_000);

    // 30000/1001 frames per second, milliseconds: frame 30 is at 1001 ms.
    let ntsc = ConcreteEncoderSettings {
        frame_rate: Rational(30_000, 1001),
        time_base: Rational(1, 1000),
        ..defaults
    };
    assert_eq!(ntsc.pts(30), 1001);
    assert_eq!(ntsc.pts(1), 33);
    assert_eq!(ntsc.pts(2), 67);

    // A time base of 1/25 s at 25 fps: one tick per frame.
    let pal = ConcreteEncoderSettings {
        frame_rate: Rational(25, 1),
        time_base: Rational(1, 25),
        ..defaults
    };
    assert_eq!(pal.pts(7), 7);

    // A time base of 2/50 s is the same tick.
    let pal2 = ConcreteEncoderSettings { time_base: Rational(2, 50), ..pal };
    assert_eq!(pal2.pts(7), 7);
}

#[test]
fn settings_validity() {
    let defaults = Profile::Av1.default_settings();
    assert!(Rational(1, 1).is_positive());
    assert!(!Rational(0, 1).is_positive());
    assert!(!Rational(1, 0).is_positive());
    assert!(!Rational(-1, 1).is_positive());
    assert!(!ConcreteEncoderSettings { frame_rate: Rational(0, 1), ..defaults }.is_valid());
    assert!(!ConcreteEncoderSettings { time_base: Rational(1, -5), ..defaults }.is_valid());
}
