//! The configuration file.
use pcp_rust::config::{
    effective_password, parse_config, parse_control_id, parse_hex_color, range_check_u8, Action,
    AppTarget, ControlId, LogoIndicator, ObsColors, RainbowStyle, RgbColor, RgbMode,
    DEFAULT_BRIGHTNESS, DEFAULT_SPEED,
};

fn error_of(content: &str) -> String {
    parse_config(content).unwrap_err().to_string()
}

#[test]
fn test_valid_config() {
    let config = parse_config(
        r##"
        [slider1]
        action = "volume"
        app = "system"

        [slider2]
        action = "volume"
        app = "firefox"

        [button1]
        action = "toggle-mute"
        app = "system"

        [button3]
        action = "toggle-mute"
        app = "firefox"

        [rgb]
        mode = "solid"
        color = "#E0FFFF"
        "##,
    )
    .unwrap();

    assert_eq!(config.mappings.len(), 4);
    assert!(config.mappings.contains_key(&ControlId::Slider(0)));
    assert!(config.mappings.contains_key(&ControlId::Button(0)));
    match config.rgb {
        Some(RgbMode::Solid { r, g, b }) => {
            assert_eq!((r, g, b), (0xE0, 0xFF, 0xFF));
        }
        other => panic!("expected Solid, got {other:?}"),
    }
}

#[test]
fn test_multi_app() {
    let config = parse_config(
        r#"
        [slider1]
        action = "volume"
        app = ["firefox", "Dota 2"]
        "#,
    )
    .unwrap();

    match config.mappings.get(&ControlId::Slider(0)) {
        Some(Action::Volume { apps, .. }) => {
            assert_eq!(apps, &["firefox", "Dota 2"]);
        }
        other => panic!("expected Volume, got {other:?}"),
    }
}

#[test]
fn test_toggle_mute_on_slider_rejected() {
    let result = parse_config(
        r#"
        [slider1]
        action = "toggle-mute"
        app = "system"
        "#,
    );
    assert!(result.is_err());
    assert!(result.unwrap_err().to_string().contains("toggle-mute"));
}

#[test]
fn test_volume_on_button_rejected() {
    let result = parse_config(
        r#"
        [button1]
        action = "volume"
        app = "system"
        "#,
    );
    assert!(result.is_err());
    assert!(result.unwrap_err().to_string().contains("volume"));
}

#[test]
fn test_gradient() {
    let config = parse_config(
        r##"
        [rgb]
        mode = "gradient"
        color1 = "#FF0000"
        color2 = "#0000FF"
        "##,
    )
    .unwrap();
    match config.rgb {
        Some(RgbMode::Gradient { color1, color2 }) => {
            assert_eq!((color1.r, color1.g, color1.b), (0xFF, 0x00, 0x00));
            assert_eq!((color2.r, color2.g, color2.b), (0x00, 0x00, 0xFF));
        }
        other => panic!("expected Gradient, got {other:?}"),
    }
}

#[test]
fn test_volume_gradient() {
    let config = parse_config(
        r##"
        [rgb]
        mode = "volume-gradient"
        color1 = "#00FF00"
        color2 = "#FF0000"
        "##,
    )
    .unwrap();
    match config.rgb {
        Some(RgbMode::VolumeGradient { color1, color2 }) => {
            assert_eq!((color1.r, color1.g, color1.b), (0x00, 0xFF, 0x00));
            assert_eq!((color2.r, color2.g, color2.b), (0xFF, 0x00, 0x00));
        }
        other => panic!("expected VolumeGradient, got {other:?}"),
    }
}

#[test]
fn test_wave_full() {
    let config = parse_config(
        r#"
        [rgb]
        mode = "wave"
        hue = 200
        brightness = 150
        speed = 32
        reverse = true
        bounce = true
        "#,
    )
    .unwrap();
    match config.rgb {
        Some(RgbMode::Wave { hue, brightness, speed, reverse, bounce }) => {
            assert_eq!(hue, 200);
            assert_eq!(brightness, 150);
            assert_eq!(speed, 32);
            assert!(reverse);
            assert!(bounce);
        }
        other => panic!("expected Wave, got {other:?}"),
    }
}

#[test]
fn test_wave_defaults() {
    let config = parse_config(
        r#"
        [rgb]
        mode = "wave"
        hue = 100
        "#,
    )
    .unwrap();
    match config.rgb {
        Some(RgbMode::Wave { hue, brightness, speed, reverse, bounce }) => {
            assert_eq!(hue, 100);
            assert_eq!(brightness, DEFAULT_BRIGHTNESS);
            assert_eq!(speed, DEFAULT_SPEED);
            assert!(!reverse);
            assert!(!bounce);
        }
        other => panic!("expected Wave, got {other:?}"),
    }
}

#[test]
fn test_breath() {
    let config = parse_config(
        r#"
        [rgb]
        mode = "breath"
        hue = 50
        "#,
    )
    .unwrap();
    match config.rgb {
        Some(RgbMode::Breath { hue, brightness, speed }) => {
            assert_eq!(hue, 50);
            assert_eq!(brightness, DEFAULT_BRIGHTNESS);
            assert_eq!(speed, DEFAULT_SPEED);
        }
        other => panic!("expected Breath, got {other:?}"),
    }
}

#[test]
fn test_hue_out_of_range() {
    let result = parse_config(
        r#"
        [rgb]
        mode = "wave"
        hue = 300
        "#,
    );
    assert!(result.is_err());
    assert!(result.unwrap_err().to_string().contains("0-255"));
}

#[test]
fn test_wave_missing_hue() {
    let result = parse_config(
        r#"
        [rgb]
        mode = "wave"
        "#,
    );
    assert!(result.is_err());
    assert!(result.unwrap_err().to_string().contains("hue"));
}

#[test]
fn test_obs_defaults() {
    let config = parse_config(
        r#"
        [obs]
        "#,
    )
    .unwrap();
    let obs = config.obs.unwrap();
    assert_eq!(obs.host, "localhost");
    assert_eq!(obs.port, 4455);
    assert!(obs.password.is_none());
    let defaults = ObsColors::default();
    assert_eq!(obs.colors.recording.r, defaults.recording.r);
    assert_eq!(obs.colors.flash_duration_ms, defaults.flash_duration_ms);
}

#[test]
fn test_obs_full() {
    let config = parse_config(
        r##"
        [obs]
        host = "192.168.1.10"
        port = 4456
        password = "secret"

        [obs.colors]
        recording = "#AA0000"
        recording_paused = "#FFAA00"
        success_flash = "#00AA00"
        error_flash = "#AA00AA"
        flash_duration_ms = 250
        "##,
    )
    .unwrap();
    let obs = config.obs.unwrap();
    assert_eq!(obs.host, "192.168.1.10");
    assert_eq!(obs.port, 4456);
    assert_eq!(obs.password.as_deref(), Some("secret"));
    assert_eq!(obs.colors.recording.r, 0xAA);
    assert_eq!(obs.colors.paused.g, 0xAA);
    assert_eq!(obs.colors.flash_duration_ms, 250);
}

#[test]
fn test_obs_action_on_knob_rejected() {
    let result = parse_config(
        r#"
        [obs]

        [knob1]
        action = "obs-save-replay"
        "#,
    );
    assert!(result.is_err());
    assert!(result.unwrap_err().to_string().contains("buttons"));
}

#[test]
fn test_all_obs_actions_on_knob_rejected() {
    for action in [
        "obs-save-replay",
        "obs-toggle-recording",
        "obs-pause-recording",
        "obs-split-recording",
    ] {
        let cfg = format!(
            r#"
            [obs]

            [knob1]
            action = "{action}"
            "#
        );
        let result = parse_config(&cfg);
        assert!(result.is_err(), "{action} on knob should be rejected");
        assert!(
            result.unwrap_err().to_string().contains("buttons"),
            "{action} on knob error should mention buttons"
        );
    }
}

#[test]
fn test_all_obs_actions_on_slider_rejected() {
    for action in [
        "obs-save-replay",
        "obs-toggle-recording",
        "obs-pause-recording",
        "obs-split-recording",
    ] {
        let cfg = format!(
            r#"
            [obs]

            [slider1]
            action = "{action}"
            "#
        );
        let result = parse_config(&cfg);
        assert!(result.is_err(), "{action} on slider should be rejected");
        assert!(
            result.unwrap_err().to_string().contains("buttons"),
            "{action} on slider error should mention buttons"
        );
    }
}

#[test]
fn test_obs_action_without_obs_section_rejected() {
    let result = parse_config(
        r#"
        [button1]
        action = "obs-save-replay"
        "#,
    );
    assert!(result.is_err());
    assert!(result.unwrap_err().to_string().contains("[obs]"));
}

#[test]
fn test_obs_actions_on_buttons_ok() {
    let config = parse_config(
        r#"
        [obs]

        [button1]
        action = "obs-save-replay"

        [button2]
        action = "obs-toggle-recording"

        [button3]
        action = "obs-pause-recording"

        [button4]
        action = "obs-split-recording"
        "#,
    )
    .unwrap();
    assert_eq!(config.mappings.len(), 4);
    assert!(matches!(
        config.mappings.get(&ControlId::Button(0)),
        Some(Action::ObsSaveReplay)
    ));
    assert!(matches!(
        config.mappings.get(&ControlId::Button(1)),
        Some(Action::ObsToggleRecording)
    ));
}

#[test]
fn test_obs_start_replay_buffer() {
    let config = parse_config(
        r#"
        [obs]
        start_replay_buffer = true
        "#,
    )
    .unwrap();
    assert!(config.obs.unwrap().start_replay_buffer);

    // Default is false when the field is absent.
    let config = parse_config(
        r#"
        [obs]
        "#,
    )
    .unwrap();
    assert!(!config.obs.unwrap().start_replay_buffer);
}

#[test]
fn test_obs_start_replay_buffer_must_be_bool() {
    let result = parse_config(
        r#"
        [obs]
        start_replay_buffer = "yes"
        "#,
    );
    assert!(result.is_err());
    assert!(result.unwrap_err().to_string().contains("boolean"));
}

#[test]
fn test_obs_port_out_of_range() {
    let result = parse_config(
        r#"
        [obs]
        port = 99999
        "#,
    );
    assert!(result.is_err());
    assert!(result.unwrap_err().to_string().contains("port"));
}

#[test]
fn control_names_are_counted_from_one() {
    assert_eq!(parse_control_id("knob1").unwrap(), ControlId::Knob(0));
    assert_eq!(parse_control_id("knob5").unwrap(), ControlId::Knob(4));
    assert_eq!(parse_control_id("slider4").unwrap(), ControlId::Slider(3));
    assert_eq!(parse_control_id("button5").unwrap(), ControlId::Button(4));
    assert!(parse_control_id("knob0").is_err());
    assert!(parse_control_id("knob6").is_err());
    assert!(parse_control_id("slider5").is_err());
    assert!(parse_control_id("button6").is_err());
    assert!(parse_control_id("knob").is_err());
    assert!(parse_control_id("dial1").is_err());
}

#[test]
fn colors_are_six_hex_digits() {
    assert_eq!(parse_hex_color("#E0fFf0").unwrap(), (0xE0, 0xFF, 0xF0));
    assert!(parse_hex_color("E0FFF").is_err());
    assert!(parse_hex_color("#E0FFF0A").is_err());
    assert!(parse_hex_color("#GG0000").is_err());
    assert!(parse_hex_color("#\u{e9}\u{e9}\u{e9}").is_err());
}

#[test]
fn bytes_are_checked_for_their_range() {
    assert_eq!(range_check_u8(0, "hue").unwrap(), 0);
    assert_eq!(range_check_u8(255, "hue").unwrap(), 255);
    assert!(range_check_u8(256, "hue").unwrap_err().to_string().contains("hue"));
    assert!(range_check_u8(-1, "speed").unwrap_err().to_string().contains("speed"));
}

#[test]
fn an_empty_file_is_an_empty_configuration() {
    let config = parse_config("").unwrap();
    assert_eq!(config.mappings.len(), 0);
    assert!(config.rgb.is_none());
    assert!(config.obs.is_none());
    assert_eq!(config.logo.indicator, LogoIndicator::Off);
}

#[test]
fn text_that_is_no_toml_is_rejected() {
    assert!(parse_config("[slider1\naction =").is_err());
}

#[test]
fn accepted_actions_are_where_they_belong() {
    let config = parse_config(
        "[knob2]\naction = \"volume\"\napp = \"mic\"\nicon = \"mic-icon\"\n\
         [button2]\naction = \"toggle-mute\"\napp = [\"mic\", \"Mumble\"]\n",
    )
    .unwrap();
    match config.mappings.get(&ControlId::Knob(1)) {
        Some(Action::Volume { apps, icon }) => {
            assert_eq!(apps, &["mic"]);
            assert_eq!(icon.as_deref(), Some("mic-icon"));
        }
        other => panic!("unexpected {other:?}"),
    }
    match config.mappings.get(&ControlId::Button(1)) {
        Some(Action::ToggleMute { apps, icon }) => {
            assert_eq!(apps, &["mic", "Mumble"]);
            assert!(icon.is_none());
        }
        other => panic!("unexpected {other:?}"),
    }
    assert!(!config.mappings.contains_key(&ControlId::Knob(0)));
    assert!(config.mappings.get(&ControlId::Slider(0)).is_none());
}

#[test]
fn a_rejected_section_is_the_one_reported() {
    let message = error_of(
        "[knob1]\naction = \"volume\"\napp = \"a\"\n[knob9]\naction = \"volume\"\napp = \"b\"\n",
    );
    assert_eq!(message, "knob number must be 1-5, got 9");
}

#[test]
fn rainbow_has_two_styles() {
    let config = parse_config("[rgb]\nmode = \"rainbow\"\nstyle = \"vertical\"\n").unwrap();
    match config.rgb {
        Some(RgbMode::Rainbow { style }) => assert_eq!(style, RainbowStyle::Vertical),
        other => panic!("unexpected {other:?}"),
    }
    let config = parse_config("[rgb]\nmode = \"rainbow\"\nstyle = \"horizontal\"\n").unwrap();
    match config.rgb {
        Some(RgbMode::Rainbow { style }) => assert_eq!(style, RainbowStyle::Horizontal),
        other => panic!("unexpected {other:?}"),
    }
    assert!(parse_config("[rgb]\nmode = \"disco\"\n").is_err());
}

#[test]
fn logo_section_is_read() {
    let config = parse_config(
        "[logo]\nindicator = \"mic\"\nmic_muted = \"#010203\"\nmic_unknown = \"#040506\"\n",
    )
    .unwrap();
    assert_eq!(config.logo.indicator, LogoIndicator::Mic);
    assert_eq!(config.logo.mic_muted, RgbColor { r: 1, g: 2, b: 3 });
    assert_eq!(config.logo.mic_unknown, RgbColor { r: 4, g: 5, b: 6 });
    assert!(parse_config("[logo]\nindicator = \"sun\"\n").is_err());
}

#[test]
fn a_password_from_the_environment_wins() {
    let configured = Some("from-file".to_string());
    assert_eq!(
        effective_password(Some("from-env".to_string()), configured).as_deref(),
        Some("from-env")
    );
    assert_eq!(
        effective_password(None, Some("from-file".to_string())).as_deref(),
        Some("from-file")
    );
    assert_eq!(effective_password(None, None), None);
}

#[test]
fn app_names_refer_to_targets() {
    assert!(Action::is_system("System"));
    assert!(Action::is_mic("MIC"));
    assert!(!Action::is_mic("microphone"));
    assert!(matches!(AppTarget::from_app("SYSTEM"), AppTarget::System));
    assert!(matches!(AppTarget::from_app("mic"), AppTarget::Mic));
    assert_eq!(AppTarget::from_app("Firefox").label(), "Firefox");
    assert!(Action::ObsSaveReplay.is_obs());
    assert!(!Action::Volume { apps: vec![], icon: None }.is_obs());
}

#[test]
fn an_error_in_the_notation_comes_with_its_cause() {
    let error = parse_config("[knob1]\naction = \n").unwrap_err();
    assert_eq!(error.to_string(), "failed to parse config file");
    assert!(error.cause.unwrap().starts_with("TOML parse error at line 2"));
    let error = parse_config("[knob1]\n").unwrap_err();
    assert!(error.cause.is_none());
}

#[test]
fn an_unreadable_number_comes_with_its_cause() {
    let told = |text: &str| {
        let error = parse_config(text).unwrap_err();
        (error.to_string(), error.cause)
    };
    let digit = Some("invalid digit found in string".to_string());
    let section = |name: &str| format!("[{name}]\naction = \"volume\"\napp = \"a\"\n");
    assert_eq!(told(&section("knobx")), ("invalid knob number".to_string(), digit.clone()));
    assert_eq!(told(&section("slider-1")), ("invalid slider number".to_string(), digit.clone()));
    assert_eq!(
        told(&section("button")),
        (
            "invalid button number".to_string(),
            Some("cannot parse integer from empty string".to_string())
        )
    );
    assert_eq!(
        told(&section("knob256")),
        (
            "invalid knob number".to_string(),
            Some("number too large to fit in target type".to_string())
        )
    );
    assert_eq!(told(&section("knob9")), ("knob number must be 1-5, got 9".to_string(), None));
    for (color, part) in [("x00000", "red"), ("00x000", "green"), ("0000x0", "blue")] {
        let text = format!("[rgb]\nmode = \"solid\"\ncolor = \"#{color}\"\n");
        assert_eq!(told(&text), (format!("invalid {part} component"), digit.clone()));
    }
    assert_eq!(parse_hex_color("0a1BfF").unwrap(), (10, 27, 255));
}

#[test]
fn a_plus_sign_is_taken_in_numbers() {
    assert_eq!(parse_hex_color("+F+0+a").unwrap(), (15, 0, 10));
    assert!(parse_hex_color("F+F+F+").is_err());
    assert_eq!(parse_control_id("knob+1").unwrap(), ControlId::Knob(0));
    assert_eq!(parse_control_id("knob02").unwrap(), ControlId::Knob(1));
    assert!(parse_control_id("knob++1").is_err());
    assert_eq!(
        parse_control_id("knob255").unwrap_err().to_string(),
        "knob number must be 1-5, got 255"
    );
    assert_eq!(parse_hex_color("aFg00+").unwrap_err().to_string(), "invalid green component");
}
