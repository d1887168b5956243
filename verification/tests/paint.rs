//! What the LEDs show.
use pcp_rust::clock::Instant;
use pcp_rust::config::{
    parse_hex_color, LogoConfig, LogoIndicator, ObsColors, RainbowStyle, RgbColor, RgbMode,
};
use pcp_rust::led::{set_breath, set_logo, LogoMode, Rgb};
use pcp_rust::obs::{ObsCommand, ObsEvent};
use pcp_rust::paint::{
    apply_rgb, log_rgb_mode, logo_indicator_visible, logo_is_independent, paint_leds,
    paint_leds_at,
};
use pcp_rust::runtime::ObsRuntime;

#[test]
fn logo_is_independent_classifies_modes() {
    assert!(logo_is_independent(None));
    assert!(logo_is_independent(Some(RgbMode::Solid { r: 0, g: 0, b: 0 })));
    let gc = RgbColor { r: 0, g: 0, b: 0 };
    assert!(logo_is_independent(Some(RgbMode::Gradient { color1: gc, color2: gc })));
    assert!(logo_is_independent(Some(RgbMode::VolumeGradient { color1: gc, color2: gc })));
    assert!(!logo_is_independent(Some(RgbMode::Rainbow {
        style: RainbowStyle::Horizontal
    })));
    assert!(!logo_is_independent(Some(RgbMode::Wave {
        hue: 0, brightness: 0, speed: 0, reverse: false, bounce: false
    })));
    assert!(!logo_is_independent(Some(RgbMode::Breath {
        hue: 0, brightness: 0, speed: 0
    })));
}

#[test]
fn logo_indicator_visible_matches_paint_routing() {
    let solid = Some(RgbMode::Solid { r: 0, g: 0, b: 0 });
    let wave = Some(RgbMode::Wave {
        hue: 0, brightness: 0, speed: 0, reverse: false, bounce: false,
    });
    let new = |paused_breath| {
        ObsRuntime::new(None, ObsColors::default(), paused_breath, LogoConfig::default())
    };

    let obs = new(false);
    assert!(logo_indicator_visible(&obs, solid));
    assert!(logo_indicator_visible(&obs, None));
    assert!(!logo_indicator_visible(&obs, wave));

    let mut obs = new(false);
    obs.apply_event(ObsEvent::Connected);
    assert!(logo_indicator_visible(&obs, wave));

    let mut obs = new(false);
    obs.apply_event(ObsEvent::Connected);
    obs.apply_event(ObsEvent::RecordingActive);
    assert!(logo_indicator_visible(&obs, wave));

    let mut obs = new(true);
    obs.apply_event(ObsEvent::Connected);
    obs.apply_event(ObsEvent::RecordingPaused);
    assert!(!logo_indicator_visible(&obs, solid));

    let mut obs = new(false);
    obs.apply_event(ObsEvent::Connected);
    obs.apply_event(ObsEvent::RecordingPaused);
    assert!(logo_indicator_visible(&obs, solid));

    let mut obs = new(false);
    obs.apply_event(ObsEvent::Connected);
    obs.apply_event(ObsEvent::CommandFailed(ObsCommand::SaveReplay, "boom".into()));
    assert!(obs.flash().is_some());
    assert!(!logo_indicator_visible(&obs, solid));
}

fn logo_of(c: RgbColor) -> Vec<u8> {
    set_logo(LogoMode::Static(Rgb::new(c.r, c.g, c.b)))
}

#[test]
fn solid_colors_reach_every_group() {
    let packets = apply_rgb(RgbMode::Solid { r: 1, g: 2, b: 3 }, None);
    assert_eq!(packets.len(), 4);
    assert_eq!(&packets[0][..6], &[5, 2, 1, 1, 2, 3]);
    assert_eq!(&packets[1][..9], &[5, 0, 2, 1, 2, 3, 1, 2, 3]);
    assert_eq!(&packets[2][..6], &[5, 1, 1, 1, 2, 3]);
    assert_eq!(packets[3], vec![5, 3, 1, 1, 2, 3]);
}

#[test]
fn an_override_changes_the_logo_alone() {
    let mode = RgbMode::Gradient {
        color1: RgbColor { r: 1, g: 2, b: 3 },
        color2: RgbColor { r: 4, g: 5, b: 6 },
    };
    let logo = RgbColor { r: 9, g: 9, b: 9 };
    let plain = apply_rgb(mode, None);
    let marked = apply_rgb(mode, Some(logo));
    assert_eq!(plain[..3], marked[..3]);
    assert_eq!(marked[3], logo_of(logo));
    assert_eq!(plain[3], logo_of(RgbColor { r: 1, g: 2, b: 3 }));
    let wave = RgbMode::Wave { hue: 1, brightness: 2, speed: 3, reverse: true, bounce: true };
    assert_eq!(apply_rgb(wave, None), apply_rgb(wave, Some(logo)));
}

#[test]
fn volume_gradients_are_for_sliders() {
    let mode = RgbMode::VolumeGradient {
        color1: RgbColor { r: 1, g: 2, b: 3 },
        color2: RgbColor { r: 4, g: 5, b: 6 },
    };
    let packets = apply_rgb(mode, None);
    assert_eq!(&packets[0][2..6], &[1, 1, 2, 3]);
    assert_eq!(&packets[1][2..9], &[3, 1, 2, 3, 4, 5, 6]);
    assert_eq!(&packets[2][2..6], &[1, 1, 2, 3]);
}

#[test]
fn animations_are_one_packet() {
    let rainbow = apply_rgb(RgbMode::Rainbow { style: RainbowStyle::Vertical }, None);
    assert_eq!(rainbow, vec![vec![5, 4, 2, 0, 255, 200, 64, 0]]);
    let breath = apply_rgb(RgbMode::Breath { hue: 5, brightness: 6, speed: 7 }, None);
    assert_eq!(breath, vec![set_breath(5, 6, 7)]);
}

#[test]
fn a_flash_owns_the_panel() {
    let now = Instant::from_millis(5_000);
    let mut obs = ObsRuntime::new(None, ObsColors::default(), false, LogoConfig::default());
    obs.apply_event_at(ObsEvent::Connected, now);
    obs.apply_event_at(ObsEvent::CommandSucceeded(ObsCommand::SaveReplay), now);
    let c = obs.colors().success_flash;
    let packets = paint_leds_at(&obs, None, now);
    assert_eq!(packets, apply_rgb(RgbMode::Solid { r: c.r, g: c.g, b: c.b }, None));
    assert_eq!(paint_leds(&obs, None), packets);
}

#[test]
fn the_indicator_shows_exactly_where_it_is_visible() {
    let now = Instant::from_millis(5_000);
    let cfg = LogoConfig {
        indicator: LogoIndicator::Replay,
        replay_active: RgbColor { r: 8, g: 8, b: 8 },
        ..Default::default()
    };
    let mut obs = ObsRuntime::new(None, ObsColors::default(), true, cfg);
    obs.apply_event_at(ObsEvent::Connected, now);
    obs.apply_event_at(ObsEvent::ReplayBufferActive, now);
    assert!(logo_indicator_visible(&obs, None));
    assert_eq!(paint_leds_at(&obs, None, now).pop().unwrap(), logo_of(cfg.replay_active));
    obs.apply_event_at(ObsEvent::RecordingPaused, now);
    assert!(!logo_indicator_visible(&obs, None));
    let packets = paint_leds_at(&obs, None, now);
    assert_eq!(packets.len(), 1);
    assert_eq!(packets[0][2], 4);
}

#[test]
fn a_disconnected_panel_follows_the_mode() {
    let now = Instant::from_millis(5_000);
    let obs = ObsRuntime::new(None, ObsColors::default(), false, LogoConfig::default());
    let mode = RgbMode::Solid { r: 3, g: 2, b: 1 };
    assert_eq!(paint_leds_at(&obs, Some(mode), now), apply_rgb(mode, None));
    assert_eq!(
        paint_leds_at(&obs, None, now),
        apply_rgb(RgbMode::Solid { r: 0, g: 0, b: 0 }, None)
    );
}

#[test]
fn modes_are_described() {
    assert_eq!(
        log_rgb_mode(RgbMode::Solid { r: 0xE0, g: 0xFF, b: 0x0A }),
        "RGB mode: solid (#E0FF0A)"
    );
    assert_eq!(
        log_rgb_mode(RgbMode::Rainbow { style: RainbowStyle::Horizontal }),
        "RGB mode: rainbow (horizontal)"
    );
    let color1 = RgbColor { r: 1, g: 2, b: 3 };
    let color2 = RgbColor { r: 0xA, g: 0xB, b: 0xC };
    assert_eq!(
        log_rgb_mode(RgbMode::Gradient { color1, color2 }),
        "RGB mode: gradient (#010203 -> #0A0B0C)"
    );
    assert_eq!(
        log_rgb_mode(RgbMode::VolumeGradient { color1, color2 }),
        "RGB mode: volume-gradient (#010203 -> #0A0B0C)"
    );
    assert_eq!(
        log_rgb_mode(RgbMode::Breath { hue: 42, brightness: 1, speed: 2 }),
        "RGB mode: breath (hue=42)"
    );
    assert_eq!(
        log_rgb_mode(RgbMode::Wave { hue: 7, brightness: 1, speed: 2, reverse: false, bounce: true }),
        "RGB mode: wave (hue=7)"
    );
    assert_eq!(parse_hex_color("#E0FF0A").unwrap(), (0xE0, 0xFF, 0x0A));
}
