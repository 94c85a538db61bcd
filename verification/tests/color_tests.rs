use sketches::color::{Color, LUM_DEN, LUM_HALF};

#[test]
fn luminance_extremes() {
    assert_eq!(Color::black().luminance(), 0);
    assert_eq!(Color::white().luminance(), 2550000);
    assert!(Color::white().luminance() <= LUM_DEN);
}

#[test]
fn luminance_range_all_gray_levels() {
    for g in 0..=255u32 {
        let c = Color::from_rgb(g as u8, g as u8, g as u8);
        let l = c.luminance();
        assert!(l <= LUM_DEN);
        assert_eq!(l, 10000 * g);
    }
}

#[test]
fn luminance_weights() {
    assert_eq!(Color::from_rgb(255, 0, 0).luminance(), 2126 * 255);
    assert_eq!(Color::from_rgb(0, 255, 0).luminance(), 7152 * 255);
    assert_eq!(Color::from_rgb(0, 0, 255).luminance(), 722 * 255);
}

#[test]
fn classification_threshold() {
    assert!(!Color::from_rgb(127, 127, 127).is_light());
    assert!(!Color::from_rgb(128, 128, 128).is_light());
    assert!(Color::from_rgb(129, 129, 129).is_light());
    assert_eq!(LUM_HALF * 2, LUM_DEN);
}

#[test]
fn rgb_round_trip() {
    let c = Color::from_rgb(0x12, 0x34, 0x56);
    let packed = c.to_rgb_u32();
    assert_eq!(packed, 0x123456);
    let d = Color::from_rgb_u32(packed);
    assert_eq!(d.r(), 0x12);
    assert_eq!(d.g(), 0x34);
    assert_eq!(d.b(), 0x56);
    assert_eq!(d, c);
}

#[test]
fn rgba_round_trip() {
    let c = Color::from_rgba(0xaa, 0xbb, 0xcc, 0x7f);
    let packed = c.to_rgba_u32();
    assert_eq!(packed, 0x7faabbcc);
    let d = Color::from_rgba_u32(packed);
    assert_eq!(d, c);
    assert_eq!(d.alpha(), 0x7f);
}

#[test]
fn rgb_round_trip_exhaustive_channel() {
    for v in 0..=255u8 {
        let c = Color::from_rgb(v, 255 - v, v ^ 0x55);
        let d = Color::from_rgb_u32(c.to_rgb_u32());
        assert_eq!(c, d);
    }
}

#[test]
fn darker_scales_by_seven_tenths() {
    let c = Color::from_rgb(200, 100, 10);
    let d = c.darker(1);
    assert_eq!(d.r(), 140);
    assert_eq!(d.g(), 70);
    assert_eq!(d.b(), 7);
    let d2 = c.darker(2);
    assert_eq!(d2.r(), 98);
    // One scale by 0.7^3 = 343/1000, truncated once at the end:
    // 10 * 343 / 1000 = 3.
    assert_eq!(Color::from_rgb(10, 10, 10).darker(3).r(), 3);
    // Past exponent 15 every channel truncates to zero.
    assert_eq!(c.darker(16), Color::from_rgba(0, 0, 0, 0xff));
    assert_eq!(c.darker(1000), Color::from_rgba(0, 0, 0, 0xff));
}

#[test]
fn brighter_clamps_at_gamut() {
    let c = Color::from_rgb(200, 100, 10);
    let b = c.brighter(1);
    assert_eq!(b.r(), 255);
    assert_eq!(b.g(), 142);
    assert_eq!(b.b(), 14);
    let w = Color::white().brighter(3);
    assert_eq!(w, Color::white());
    // One scale by (10/7)^2 = 100/49: 99 * 100 / 49 = 202.
    assert_eq!(Color::from_rgb(99, 99, 99).brighter(2).r(), 202);
    // Past exponent 15 every nonzero channel saturates.
    assert_eq!(Color::from_rgb(1, 0, 2).brighter(16), Color::from_rgb(255, 0, 255));
}

#[test]
fn scaled_applies_an_exact_fraction() {
    // The burst halo factor: 17075/10000.
    let c = Color::from_rgb(100, 200, 0).scaled(17075, 10000);
    assert_eq!(c.r(), 170);
    assert_eq!(c.g(), 255);
    assert_eq!(c.b(), 0);
}

#[test]
fn with_alpha_replaces_only_alpha() {
    let c = Color::from_rgb(1, 2, 3).with_alpha(9);
    assert_eq!(c.r(), 1);
    assert_eq!(c.g(), 2);
    assert_eq!(c.b(), 3);
    assert_eq!(c.alpha(), 9);
}
