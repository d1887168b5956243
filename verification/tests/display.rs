//! The monitor to match.
use pcp_rust::display::{
    current_display_resolution, resolution_of, select_output, Mode, Output, Size,
};

fn mode(id: &str, width: u32, height: u32) -> Mode {
    Mode { id: id.to_string(), size: Size { width, height } }
}

fn output(
    name: &str,
    usable: bool,
    priority: Option<i64>,
    current_mode_id: &str,
    modes: Vec<Mode>,
) -> Output {
    Output {
        name: name.to_string(),
        enabled: usable,
        connected: usable,
        priority,
        current_mode_id: current_mode_id.to_string(),
        modes,
    }
}

fn two_outputs() -> Vec<Output> {
    vec![
        output("DP-1", true, Some(1), "2", vec![mode("1", 1920, 1080), mode("2", 3840, 2160)]),
        output("HDMI-A-1", true, Some(2), "9", vec![mode("9", 1920, 1080)]),
    ]
}

#[test]
fn selects_named_display_case_insensitively() {
    let outputs = two_outputs();
    let out = select_output(&outputs, Some("dp-1")).unwrap();
    assert_eq!(resolution_of(out).unwrap(), (3840, 2160));

    let out = select_output(&outputs, Some("HDMI-A-1")).unwrap();
    assert_eq!(resolution_of(out).unwrap(), (1920, 1080));
}

#[test]
fn unknown_named_display_errors() {
    let outputs = two_outputs();
    let err = select_output(&outputs, Some("DP-9")).unwrap_err();
    assert!(err.to_string().contains("DP-9"));
    assert_eq!(
        err,
        "capture_display \"DP-9\" not found among enabled, connected displays"
    );
}

#[test]
fn no_target_picks_primary_when_multiple() {
    let outputs = two_outputs();
    let out = select_output(&outputs, None).unwrap();
    assert_eq!(out.name, "DP-1");
    assert_eq!(resolution_of(out).unwrap(), (3840, 2160));
}

#[test]
fn no_target_uses_sole_usable_display_without_primary() {
    let outputs = vec![
        output("DP-1", true, None, "2", vec![mode("2", 2560, 1440)]),
        output("HDMI-A-1", false, None, "1", vec![mode("1", 1920, 1080)]),
    ];
    let out = select_output(&outputs, None).unwrap();
    assert_eq!(out.name, "DP-1");
    assert_eq!(resolution_of(out).unwrap(), (2560, 1440));
}

#[test]
fn no_target_multiple_without_primary_errors() {
    let outputs = vec![
        output("DP-1", true, None, "1", vec![mode("1", 3840, 2160)]),
        output("DP-2", true, None, "1", vec![mode("1", 1920, 1080)]),
    ];
    let err = select_output(&outputs, None).unwrap_err();
    assert!(err.to_string().contains("capture_display"));
}

#[test]
fn missing_current_mode_errors() {
    let outputs = vec![output("DP-1", true, Some(1), "99", vec![mode("1", 3840, 2160)])];
    let out = select_output(&outputs, None).unwrap();
    let err = resolution_of(out).unwrap_err();
    assert!(err.to_string().contains("current mode 99"));
}

#[test]
fn unusable_displays_are_never_matched() {
    let mut outputs = two_outputs();
    outputs[0].connected = false;
    assert!(select_output(&outputs, Some("DP-1")).is_err());
    assert_eq!(current_display_resolution(&outputs, None).unwrap(), (1920, 1080));
    outputs[1].enabled = false;
    assert_eq!(
        current_display_resolution(&outputs, None).unwrap_err(),
        "no enabled, connected display found"
    );
    assert!(select_output(&[], None).is_err());
}
