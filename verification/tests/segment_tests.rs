use sketches::color::Color;
use sketches::rng::SketchRng;
use sketches::segment::{color_contrasting_with, index_of_max, index_of_min, segment_theme,
    shadow_over};

/// A gray level whose luminance numerator is 10000 times the level.
fn gray(level: u8) -> Color {
    Color::from_rgb(level, level, level)
}

/// The scenario palette: luminances near 0.1, 0.9, 0.3, 0.5, 0.7.
fn scenario_palette() -> Vec<Color> {
    vec![gray(26), gray(230), gray(77), gray(128), gray(179)]
}

#[test]
fn extremes_of_scenario_palette() {
    let palette = scenario_palette();
    assert_eq!(index_of_min(&palette), 0);
    assert_eq!(index_of_max(&palette), 1);
}

#[test]
fn min_and_max_tie_break_to_first() {
    let palette = vec![gray(50), gray(10), gray(200), gray(10), gray(200)];
    assert_eq!(index_of_min(&palette), 1);
    assert_eq!(index_of_max(&palette), 2);
}

#[test]
fn segmentation_of_scenario_palette() {
    // Whatever the coin flip, the role colors are entries 0 and 1 and
    // the residual pool is entries 2, 3 and 4 in order.
    let palette = scenario_palette();
    for seed in 0..16u64 {
        let mut rng = SketchRng::new(seed);
        let (bg, fg, rest) = segment_theme(&mut rng, &palette);
        assert!(
            (bg == palette[0] && fg == palette[1]) || (bg == palette[1] && fg == palette[0])
        );
        assert_eq!(rest.len(), 3);
        assert_eq!(rest[0], palette[2]);
        assert_eq!(rest[1], palette[3]);
        assert_eq!(rest[2], palette[4]);
    }
}

#[test]
fn segmentation_sees_both_orders() {
    let palette = scenario_palette();
    let mut saw_dark_bg = false;
    let mut saw_light_bg = false;
    for seed in 0..64u64 {
        let mut rng = SketchRng::new(seed);
        let (bg, _, _) = segment_theme(&mut rng, &palette);
        if bg == palette[0] {
            saw_dark_bg = true;
        } else {
            saw_light_bg = true;
        }
    }
    assert!(saw_dark_bg && saw_light_bg);
}

#[test]
fn contrast_rule() {
    assert_eq!(color_contrasting_with(&gray(200)), Color::from_rgb(0x33, 0x33, 0x33));
    assert_eq!(color_contrasting_with(&gray(20)), Color::white());
}

#[test]
fn shadow_tone() {
    let s = shadow_over(&gray(200), 51);
    assert_eq!(s, Color::black().with_alpha(51));
    let t = shadow_over(&gray(20), 51);
    assert_eq!(t, Color::white().with_alpha(51));
}
