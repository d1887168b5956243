//! The service, the udev rules, the command line and texts.
use pcp_rust::service::{
    binary_path, confirm_overwrite, create_udev_rules, generate_service_file, install,
    overwrite_question, remove, rules_path, service_file_name, systemctl, ServiceStep,
};
use pcp_rust::startup::{config_path, is_resume, missing_config, select_mode, Mode};
use pcp_rust::text::{
    append_decimal, append_signed, contains, eq_ignore_ascii_case, is_whitespace, same,
    strip_prefix, trim,
};

fn show(steps: &Vec<ServiceStep>) -> Vec<String> {
    steps.iter().map(|s| format!("{s:?}")).collect()
}

#[test]
fn a_yes_is_needed_to_overwrite() {
    assert!(confirm_overwrite("y\n"));
    assert!(confirm_overwrite(" Y "));
    assert!(!confirm_overwrite("yes\n"));
    assert!(!confirm_overwrite("n\n"));
    assert!(!confirm_overwrite(""));
    assert_eq!(overwrite_question("/x"), "/x already exists. Overwrite? [y/N] ");
}

#[test]
fn special_characters_are_rejected_in_paths() {
    assert!(binary_path("/usr/bin/pcp rust", "shown").is_ok());
    assert_eq!(
        binary_path("/usr/$HOME/\"x", "\"p\"").unwrap_err(),
        "binary path contains the special character `$` (\"p\"); \
         move or rename the binary to a path without `\"`, `\\`, or `$`"
    );
    assert!(binary_path("/a\\b", "").is_err());
    assert!(binary_path("/a\"b", "").is_err());
}

#[test]
fn the_unit_file_starts_the_binary() {
    let unit = generate_service_file("/opt/pcp");
    assert!(unit.starts_with("[Unit]\nDescription=PCPanel Pro Controller\n"));
    assert!(unit.contains("\nExecStart=\"/opt/pcp\"\nRestart=on-failure\nRestartSec=5\n"));
    assert!(unit.contains("\nRestrictAddressFamilies=AF_UNIX AF_INET AF_INET6\n"));
    assert!(unit.ends_with("\n[Install]\nWantedBy=default.target\n"));
    assert_eq!(service_file_name(), "pcpanel.service");
}

#[test]
fn installing_goes_in_order() {
    let fresh = show(&install(false, "/u", "/b"));
    assert_eq!(
        &fresh[..7],
        &[
            "CreateDirectory",
            "WriteFile",
            "Say(\"Created /u\")",
            "Say(\"Binary: /b\")",
            "Systemctl { args: [\"daemon-reload\"], may_fail: false }",
            "Systemctl { args: [\"enable\", \"pcpanel\"], may_fail: false }",
            "Systemctl { args: [\"start\", \"pcpanel\"], may_fail: false }",
        ]
    );
    let again = show(&install(true, "/u", "/b"));
    assert_eq!(again[0], "Confirm");
    assert_eq!(again[1], "Systemctl { args: [\"stop\", \"pcpanel\"], may_fail: true }");
    assert_eq!(again[2], "Systemctl { args: [\"disable\", \"pcpanel\"], may_fail: true }");
    assert_eq!(again[3..], fresh[..]);
}

#[test]
fn removing_goes_in_order() {
    assert_eq!(show(&remove(false)), vec!["Say(\"Service is not installed.\")"]);
    assert_eq!(
        show(&remove(true)),
        vec![
            "Systemctl { args: [\"stop\", \"pcpanel\"], may_fail: true }",
            "Systemctl { args: [\"disable\", \"pcpanel\"], may_fail: true }",
            "RemoveFile",
            "Systemctl { args: [\"daemon-reload\"], may_fail: false }",
            "Say(\"Service stopped, disabled, and removed.\")",
        ]
    );
    let args = vec!["start".to_string(), "pcpanel".to_string()];
    assert_eq!(
        systemctl(&args, " no unit\n"),
        "systemctl --user start pcpanel failed: no unit"
    );
}

#[test]
fn udev_rules_take_root() {
    assert_eq!(
        create_udev_rules(false, false, Some("./pcp".to_string())).unwrap_err(),
        "Creating udev rules requires root privileges.\n\
         Run again with: sudo ./pcp --create-udev-rules"
    );
    assert!(create_udev_rules(false, true, None).unwrap_err().contains("sudo pcp_rust "));
    let steps = show(&create_udev_rules(true, true, None).unwrap());
    assert_eq!(steps[0], "Confirm");
    assert_eq!(steps[1], "WriteFile");
    let steps = show(&create_udev_rules(true, false, None).unwrap());
    assert_eq!(steps[0], "WriteFile");
    assert_eq!(steps[1], format!("Say(\"Created {}\")", rules_path()));
    assert_eq!(steps.len(), 5);
}

#[test]
fn the_first_request_of_the_command_line_is_done() {
    assert_eq!(select_mode(true, true, true, true), Mode::CreateUdevRules);
    assert_eq!(select_mode(false, true, true, true), Mode::InstallService);
    assert_eq!(select_mode(false, false, true, true), Mode::RemoveService);
    assert_eq!(select_mode(false, false, false, true), Mode::ListApps);
    assert_eq!(select_mode(false, false, false, false), Mode::Run);
}

#[test]
fn a_given_configuration_wins() {
    assert_eq!(config_path(Some(1), Some(2)), Ok(1));
    assert_eq!(config_path(None, Some(2)), Ok(2));
    assert_eq!(
        config_path::<u8>(None, None).unwrap_err(),
        "could not determine config path"
    );
    assert_eq!(
        missing_config("/c"),
        "Config file not found: /c\nCreate one or specify a path with --config"
    );
    assert!(is_resume(Some(false)));
    assert!(!is_resume(Some(true)));
    assert!(!is_resume(None));
}

#[test]
fn texts_are_compared_and_cut() {
    assert!(same("a\u{e9}", "a\u{e9}"));
    assert!(!same("a", "ab"));
    assert!(eq_ignore_ascii_case("LocalHost", "localhost"));
    assert!(!eq_ignore_ascii_case("\u{c9}", "\u{e9}"));
    assert!(contains("abcabd", "abd"));
    assert!(contains("abc", ""));
    assert!(!contains("ab", "abc"));
    assert_eq!(trim("\u{a0} \ta b\u{3000}\n"), "a b");
    assert_eq!(trim("  "), "");
    assert!(is_whitespace('\u{2003}'));
    assert!(!is_whitespace('x'));
    assert_eq!(strip_prefix("Icon=x", "Icon="), Some("x"));
    assert_eq!(strip_prefix("icon=x", "Icon="), None);
}

#[test]
fn numbers_are_written_in_decimal() {
    let mut s = String::new();
    append_decimal(&mut s, 0);
    append_decimal(&mut s, 18_446_744_073_709_551_615);
    append_signed(&mut s, -9_223_372_036_854_775_808);
    append_signed(&mut s, 5);
    assert_eq!(s, "018446744073709551615-92233720368547758085");
}
