//! Icons and popups.
use pcp_rust::icons::{
    desktop_file_matches, find_icon_in_dirs, parse_desktop_entry_icon, resolve, resolve_mute,
    DesktopFile, IconQuestion, IconSearch,
};
use pcp_rust::osd::{
    media_player_volume_changed, microphone_volume_changed, show_mic_mute, show_mute, show_text,
    volume_changed, OsdCall,
};
use pcp_rust::table::Table;

#[test]
fn parse_icon_from_desktop_entry() {
    let content = "\
[Desktop Entry]
Name=Foo
Icon=foo-app
Exec=/usr/bin/foo
";
    assert_eq!(parse_desktop_entry_icon(content), Some("foo-app".into()));
}

#[test]
fn parse_icon_ignores_other_sections() {
    let content = "\
[Desktop Action New]
Name=New Window
Icon=action-new

[Desktop Entry]
Name=Foo
Icon=foo-app
";
    assert_eq!(parse_desktop_entry_icon(content), Some("foo-app".into()));
}

#[test]
fn parse_icon_skips_when_only_other_section_has_icon() {
    let content = "\
[Desktop Action New]
Icon=action-only
";
    assert_eq!(parse_desktop_entry_icon(content), None);
}

#[test]
fn parse_icon_empty_value_returns_none() {
    let content = "\
[Desktop Entry]
Icon=
";
    assert_eq!(parse_desktop_entry_icon(content), None);
}

fn desktop_file(name: &str, content: &str) -> DesktopFile {
    DesktopFile {
        stem: name.to_string(),
        extension: Some("desktop".to_string()),
        content: Some(content.to_string()),
    }
}

#[test]
fn find_icon_in_dirs_matches_filename_substring() {
    let files = vec![desktop_file(
        "org.example.firefox",
        "[Desktop Entry]\nIcon=firefox-icon\n",
    )];
    assert_eq!(find_icon_in_dirs("firefox", &files), Some("firefox-icon".into()));
}

#[test]
fn find_icon_in_dirs_returns_none_for_unrelated_files() {
    let files = vec![desktop_file("vlc", "[Desktop Entry]\nIcon=vlc\n")];
    assert_eq!(find_icon_in_dirs("firefox", &files), None);
}

#[test]
fn desktop_files_are_read_with_care() {
    assert_eq!(
        parse_desktop_entry_icon("\r\n[Desktop Entry]\r\n  Icon=  a b \r\n").as_deref(),
        Some("a b")
    );
    assert_eq!(
        parse_desktop_entry_icon("[Desktop Entry]\nIcon=\nIcon=second").as_deref(),
        Some("second")
    );
    assert_eq!(parse_desktop_entry_icon("Icon=early\n[Desktop Entry]\nName=x"), None);
    assert_eq!(parse_desktop_entry_icon("[Desktop Entry]\n[Other]\nIcon=x"), None);
    assert_eq!(parse_desktop_entry_icon(""), None);
}

#[test]
fn file_names_are_matched_without_case() {
    assert!(desktop_file_matches("Org.FireFox", Some("desktop"), "fireFOX"));
    assert!(!desktop_file_matches("firefox", Some("txt"), "firefox"));
    assert!(!desktop_file_matches("firefox", None, "firefox"));
    assert!(!desktop_file_matches("fire", Some("desktop"), "firefox"));
    let files = vec![
        DesktopFile { stem: "firefox".into(), extension: Some("desktop".into()), content: None },
        desktop_file("firefox-esr", "[Desktop Entry]\nName=none\n"),
        desktop_file("firefox2", "[Desktop Entry]\nIcon=two\n"),
        desktop_file("firefox3", "[Desktop Entry]\nIcon=three\n"),
    ];
    assert_eq!(find_icon_in_dirs("Firefox", &files).as_deref(), Some("two"));
}

fn search(icon: Option<&str>, names: &[&str]) -> IconSearch {
    IconSearch::find_app_icon(
        icon.map(String::from),
        names.iter().map(|s| s.to_string()).collect(),
    )
}

fn answer(s: &IconSearch) -> Option<String> {
    match s.question() {
        IconQuestion::Answer(icon) => icon,
        other => panic!("unexpected {other:?}"),
    }
}

#[test]
fn a_configured_icon_comes_first() {
    assert_eq!(answer(&search(Some("mine"), &["a"])).as_deref(), Some("mine"));
    assert_eq!(answer(&search(None, &[])), None);
}

#[test]
fn desktop_files_come_before_the_theme() {
    let mut s = search(None, &["First", "Second"]);
    assert!(matches!(s.question(), IconQuestion::DesktopIcon(app) if app == "First"));
    s.desktop_icon(None);
    assert!(matches!(s.question(), IconQuestion::DesktopIcon(app) if app == "Second"));
    s.desktop_icon(Some("second-icon".to_string()));
    assert_eq!(answer(&s).as_deref(), Some("second-icon"));
}

#[test]
fn the_theme_comes_last() {
    let mut s = search(None, &["First", "Second"]);
    s.desktop_icon(None);
    s.desktop_icon(None);
    assert!(matches!(s.question(), IconQuestion::ThemeHas(name) if name == "first"));
    s.theme_has(true);
    assert_eq!(answer(&s).as_deref(), Some("first"));
    let mut s = search(None, &["First"]);
    s.desktop_icon(None);
    s.theme_has(false);
    assert_eq!(answer(&s), None);
}

#[test]
fn missing_icons_have_a_stand_in() {
    assert_eq!(resolve(None), "");
    assert_eq!(resolve(Some("x".to_string())), "x");
    assert_eq!(resolve_mute(None, true), "audio-volume-muted");
    assert_eq!(resolve_mute(None, false), "audio-volume-high");
    assert_eq!(resolve_mute(Some("x".to_string()), true), "x");
}

#[test]
fn popups_have_their_method() {
    assert_eq!(volume_changed(7).method(), "volumeChanged");
    assert_eq!(microphone_volume_changed(7).method(), "microphoneVolumeChanged");
    assert_eq!(media_player_volume_changed(7, "a", "b").method(), "mediaPlayerVolumeChanged");
    assert_eq!(show_text("a", "b").method(), "showText");
    match media_player_volume_changed(7, "a", "b") {
        OsdCall::MediaPlayerVolumeChanged { percent, player_name, icon } => {
            assert_eq!((percent, player_name.as_str(), icon.as_str()), (7, "a", "b"));
        }
        other => panic!("unexpected {other:?}"),
    }
}

fn text_popup(call: OsdCall) -> (String, String) {
    match call {
        OsdCall::ShowText { icon, text } => (icon, text),
        other => panic!("unexpected {other:?}"),
    }
}

#[test]
fn mute_popups_say_what_happened() {
    assert_eq!(
        text_popup(show_mute("System", true)),
        ("audio-volume-muted".to_string(), "System: Muted".to_string())
    );
    assert_eq!(
        text_popup(show_mute("System", false)),
        ("audio-volume-high".to_string(), "System: Unmuted".to_string())
    );
    assert_eq!(
        text_popup(show_mic_mute(true)),
        ("microphone-sensitivity-muted".to_string(), "Microphone: Muted".to_string())
    );
    assert_eq!(
        text_popup(show_mic_mute(false)),
        ("microphone-sensitivity-high".to_string(), "Microphone: Unmuted".to_string())
    );
}

#[test]
fn tables_hold_one_value_for_each_text() {
    let mut t: Table<u32> = Table::new();
    assert_eq!(t.get("a"), None);
    t.insert("a".to_string(), 1);
    t.insert("b".to_string(), 2);
    t.insert("a".to_string(), 3);
    assert_eq!(t.get("a"), Some(&3));
    assert_eq!(t.get("b"), Some(&2));
    assert_eq!(t.take_all().len(), 2);
    assert_eq!(t.get("a"), None);
}

#[test]
fn popups_of_an_app_share_its_icon() {
    let files = [desktop_file("firefox", "[Desktop Entry]\nIcon=fox\n")];
    let mut s = search(None, &["Firefox"]);
    s.desktop_icon(find_icon_in_dirs("Firefox", &files));
    assert_eq!(resolve(answer(&s)), "fox");
    assert_eq!(resolve_mute(answer(&s), true), "fox");
    assert_eq!(resolve_mute(answer(&s), false), "fox");
    let mut s = search(None, &["Mumble"]);
    s.desktop_icon(find_icon_in_dirs("Mumble", &files));
    s.theme_has(false);
    assert_eq!(resolve(answer(&s)), "");
    assert_eq!(resolve_mute(answer(&s), true), "audio-volume-muted");
    assert_eq!(resolve_mute(answer(&s), false), "audio-volume-high");
}

#[test]
fn every_name_has_letters_in_lower_case() {
    let mut s = search(None, &["\u{130}X"]);
    s.desktop_icon(None);
    s.theme_has(true);
    assert_eq!(answer(&s), Some("i\u{307}x".to_string()));
}
