//! LED packets.
use pcp_rust::led::{
    rgb_to_hue, set_breath, set_knob_colors, set_logo, set_rainbow, set_slider_colors,
    set_slider_label_colors, set_wave, LedMode, LogoMode, Rgb, ANIM_RAINBOW_HORIZONTAL,
    CMD_KNOBS, CMD_SLIDERS, CMD_SLIDER_LABELS,
};

#[test]
fn rgb_to_hue_primaries() {
    assert_eq!(rgb_to_hue(Rgb::new(0xFF, 0, 0)), 0);
    assert_eq!(rgb_to_hue(Rgb::new(0, 0xFF, 0)), 85);
    assert_eq!(rgb_to_hue(Rgb::new(0, 0, 0xFF)), 170);
}

#[test]
fn rgb_to_hue_amber() {
    let h = rgb_to_hue(Rgb::new(0xFF, 0xC0, 0));
    assert!((30..=34).contains(&h), "expected hue near 32 for amber, got {h}");
}

#[test]
fn rgb_to_hue_achromatic() {
    assert_eq!(rgb_to_hue(Rgb::new(0xFF, 0xFF, 0xFF)), 0);
    assert_eq!(rgb_to_hue(Rgb::new(0x00, 0x00, 0x00)), 0);
    assert_eq!(rgb_to_hue(Rgb::new(0x80, 0x80, 0x80)), 0);
}

/// The hue in degrees and in single precision, scaled to a byte.
fn hue_in_single_precision(r: u8, g: u8, b: u8) -> u8 {
    let r = r as f32 / 255.0;
    let g = g as f32 / 255.0;
    let b = b as f32 / 255.0;
    let max = r.max(g).max(b);
    let min = r.min(g).min(b);
    let delta = max - min;
    let hue_deg = if delta < 1e-6 {
        0.0
    } else if (max - r).abs() < 1e-6 {
        60.0 * (((g - b) / delta).rem_euclid(6.0))
    } else if (max - g).abs() < 1e-6 {
        60.0 * (((b - r) / delta) + 2.0)
    } else {
        60.0 * (((r - g) / delta) + 4.0)
    };
    let hue_deg = if hue_deg < 0.0 { hue_deg + 360.0 } else { hue_deg };
    ((hue_deg / 360.0 * 255.0).round() as u32).min(255) as u8
}

#[test]
fn hues_agree_with_single_precision() {
    for r in (0..=255u32).step_by(15) {
        for g in (0..=255u32).step_by(17) {
            for b in (0..=255u32).step_by(5) {
                let (r, g, b) = (r as u8, g as u8, b as u8);
                assert_eq!(
                    rgb_to_hue(Rgb::new(r, g, b)),
                    hue_in_single_precision(r, g, b),
                    "{r} {g} {b}"
                );
            }
        }
    }
}

#[test]
fn packets_have_their_exact_bytes() {
    let red = LedMode::Static(Rgb::new(255, 0, 0));
    let knobs = set_knob_colors(&[red; 5]);
    assert_eq!(&knobs[..9], &[0x05, CMD_KNOBS, 1, 255, 0, 0, 0, 0, 0]);
    assert_eq!(knobs.len(), 37);
    let fade = LedMode::Gradient(Rgb::new(1, 2, 3), Rgb::new(4, 5, 6));
    let sliders = set_slider_colors(&[fade; 4]);
    assert_eq!(&sliders[..9], &[0x05, CMD_SLIDERS, 2, 1, 2, 3, 4, 5, 6]);
    assert_eq!(sliders.len(), 30);
    let labels = set_slider_label_colors(&[red; 4]);
    assert_eq!(&labels[..6], &[0x05, CMD_SLIDER_LABELS, 1, 255, 0, 0]);
    assert_eq!(set_logo(LogoMode::Static(Rgb::new(7, 8, 9))), vec![5, 3, 1, 7, 8, 9]);
    assert_eq!(set_logo(LogoMode::Rainbow { brightness: 7, speed: 8 }), vec![5, 3, 2, 255, 7, 8]);
    assert_eq!(
        set_logo(LogoMode::Breath { hue: 6, brightness: 7, speed: 8 }),
        vec![5, 3, 3, 6, 7, 8]
    );
    assert_eq!(
        set_rainbow(ANIM_RAINBOW_HORIZONTAL, 11, 12),
        vec![5, 4, 1, 0, 255, 11, 12, 0]
    );
    assert_eq!(set_wave(21, 22, 23, true, false), vec![5, 4, 3, 21, 255, 22, 23, 1, 0]);
    assert_eq!(set_breath(31, 32, 33), vec![5, 4, 4, 31, 255, 32, 33]);
}

#[test]
fn modes_differ_in_their_bytes() {
    let c = Rgb::new(10, 20, 30);
    let d = Rgb::new(40, 50, 60);
    let a = LedMode::Static(c).to_bytes();
    let b = LedMode::Gradient(c, d).to_bytes();
    let e = LedMode::VolumeGradient(c, d).to_bytes();
    assert_ne!(a, b);
    assert_ne!(b, e);
    assert_eq!(&a[1..4], &[10, 20, 30]);
    assert_eq!(&b[1..7], &[10, 20, 30, 40, 50, 60]);
}
