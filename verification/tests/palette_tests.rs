//! Tests of the palette generator: shape, exact colors, the lightness
//! plateau, idempotence, and the hue state.

use fire_effect::palette::generate_palette;
use fire_effect::palette::try_generate_palette;
use fire_effect::palette::HueState;

#[test]
fn palette_has_256_colors_with_zero_top_byte() {
    for h20 in [1i64, -1, 60, -60, 7, 1000000, -1000000] {
        let p = generate_palette(h20);
        assert_eq!(p.len(), 256);
        for px in &p {
            assert!(*px < 0x0100_0000, "top byte must be zero: {:#x}", px);
        }
    }
}

#[test]
fn default_scale_midpoint_is_white() {
    // at full lightness the conversion is white regardless of hue
    let p = generate_palette(60);
    assert_eq!(p[128], 0x00FF_FFFF);
}

#[test]
fn default_scale_black_start_and_white_tail() {
    let p = generate_palette(60);
    assert_eq!(p[0], 0);
    for i in 128..256 {
        assert_eq!(p[i], 0x00FF_FFFF, "index {} past the midpoint", i);
    }
}

#[test]
fn default_scale_exact_mid_ramp_color() {
    // index 64 at scale 3.0: lightness exactly 1/2, hue angle 1/12 of a
    // turn: red saturates to 255, green truncates to 127, blue floors
    // to 0 — packed blue-low that is 0x00FF7F00
    let p = generate_palette(60);
    assert_eq!(p[64], 0x00FF_7F00);
}

#[test]
fn palette_generation_is_idempotent() {
    for h20 in [60i64, -3, 999] {
        let a = generate_palette(h20);
        let b = generate_palette(h20);
        assert_eq!(a, b);
    }
}

#[test]
fn try_generate_rejects_zero_and_out_of_range_scales() {
    assert!(try_generate_palette(0).is_none());
    assert!(try_generate_palette(1000001).is_none());
    assert!(try_generate_palette(-1000001).is_none());
    let p = try_generate_palette(60).expect("usable scale");
    assert_eq!(p, generate_palette(60));
}

#[test]
fn hue_state_starts_at_three_and_steps_by_a_twentieth() {
    let mut s = HueState::new();
    assert_eq!(s.scale_twentieths(), 60);
    s.increase();
    assert_eq!(s.scale_twentieths(), 61);
    s.decrease();
    s.decrease();
    assert_eq!(s.scale_twentieths(), 59);
}

#[test]
fn hue_state_can_reach_zero_where_generation_refuses() {
    let mut s = HueState::new();
    for _ in 0..60 {
        s.decrease();
    }
    assert_eq!(s.scale_twentieths(), 0);
    assert!(try_generate_palette(s.scale_twentieths()).is_none());
    s.decrease();
    assert_eq!(s.scale_twentieths(), -1);
    assert!(try_generate_palette(s.scale_twentieths()).is_some());
}

#[test]
fn negative_scale_still_yields_full_palette() {
    let p = generate_palette(-60);
    assert_eq!(p.len(), 256);
    // full lightness still saturates to white whatever the hue sign
    assert_eq!(p[255], 0x00FF_FFFF);
}
