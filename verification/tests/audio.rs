//! Streams, volumes and waiting.
use pcp_rust::audio::{
    app_info, comm_of, comm_path, entry_matches_target, get_client_pid, list_comm_path, list_line,
    match_streams, match_targets, needs_comm, resolve_pid, toggle_app_mute, toggle_default_mute,
    value_to_percent, volume_from_u8, AppInfo, Listed, MuteQuery, MuteSettled, PidSource,
    SinkInputEntry, Target, VOLUME_NORMAL,
};
use pcp_rust::clock::Instant;
use pcp_rust::persist::{
    restore_outcome, update_stream_restore, PersistQueue, RestoreEntry, RestoreUpdate,
    PERSIST_IDLE_MS,
};
use pcp_rust::audio::Volume;
use pcp_rust::wait::{
    connect_step, reconnect_step, write_outcome, ContextState, Iterated, Verdict, Wait,
    CONNECT_DEADLINE_MS, DEADLINE_MS, MAX_ITERATIONS,
};

#[test]
fn volume_from_u8_endpoints() {
    assert_eq!(volume_from_u8(0).0, 0);
    assert_eq!(volume_from_u8(255).0, VOLUME_NORMAL);
}

#[test]
fn volume_from_u8_midpoint() {
    let mid_lo = volume_from_u8(127).0 as f64 / VOLUME_NORMAL as f64;
    let mid_hi = volume_from_u8(128).0 as f64 / VOLUME_NORMAL as f64;
    assert!((0.49..=0.51).contains(&mid_lo), "127 → {mid_lo}");
    assert!((0.49..=0.51).contains(&mid_hi), "128 → {mid_hi}");
}

#[test]
fn volume_from_u8_monotonic_at_low_end() {
    assert!(volume_from_u8(1).0 > volume_from_u8(0).0);
}

#[test]
fn volume_from_u8_near_max_doesnt_exceed_normal() {
    assert!(volume_from_u8(254).0 < VOLUME_NORMAL);
}

#[test]
fn volumes_agree_with_double_precision() {
    for value in 0..=255u8 {
        let fraction = value as f64 / 255.0;
        let raw = (fraction * f64::from(VOLUME_NORMAL) + 0.5) as u32;
        assert_eq!(volume_from_u8(value).0, raw, "{value}");
    }
    assert_eq!(volume_from_u8(128).0, 32897);
}

#[test]
fn positions_are_shown_in_percent() {
    assert_eq!(value_to_percent(0), 0);
    assert_eq!(value_to_percent(1), 0);
    assert_eq!(value_to_percent(2), 1);
    assert_eq!(value_to_percent(127), 50);
    assert_eq!(value_to_percent(128), 50);
    assert_eq!(value_to_percent(254), 100);
    assert_eq!(value_to_percent(255), 100);
}

fn entry(name: &str, binary: Option<&str>) -> SinkInputEntry {
    SinkInputEntry {
        index: 0,
        name: name.to_string(),
        name_lower: name.to_lowercase(),
        binary: binary.map(String::from),
        binary_lower: binary.map(|b| b.to_lowercase()),
        pid: None,
        client_index: u32::MAX,
        channels: 2,
        muted: false,
    }
}

#[test]
fn entry_matches_target_by_name_substring_case_insensitive() {
    let e = entry("Firefox", Some("firefox-bin"));
    assert!(entry_matches_target(&e, "fire", None));
    assert!(entry_matches_target(&e, "firefox", None));
}

#[test]
fn entry_matches_target_by_binary() {
    let e = entry("AudioStream", Some("dota2"));
    assert!(entry_matches_target(&e, "dota2", None));
}

#[test]
fn entry_matches_target_no_match_on_name_or_binary() {
    let e = entry("AudioStream", Some("dota2"));
    assert!(!entry_matches_target(&e, "mumble", None));
}

#[test]
fn entry_matches_target_comm_fallback_only_when_provided() {
    let e = entry("pipewire stream", None);
    assert!(!entry_matches_target(&e, "dota", None));
    assert!(entry_matches_target(&e, "dota", Some("dota2")));
}

#[test]
fn entry_matches_target_no_binary_is_safe() {
    let e = entry("Mumble", None);
    assert!(entry_matches_target(&e, "mumble", None));
    assert!(!entry_matches_target(&e, "nope", None));
}

fn stream(index: u32, app: Option<&str>, own: Option<&str>, muted: bool) -> SinkInputEntry {
    SinkInputEntry::new(
        index,
        app.map(String::from),
        own.map(String::from),
        None,
        None,
        Some(index),
        2,
        muted,
    )
}

#[test]
fn streams_have_a_name_in_lower_case() {
    let e = SinkInputEntry::new(
        4,
        Some("FireFox".to_string()),
        Some("Playback".to_string()),
        Some("FIREFOX-bin".to_string()),
        Some("17".to_string()),
        None,
        6,
        true,
    );
    assert_eq!(e.name, "FireFox");
    assert_eq!(e.name_lower, "firefox");
    assert_eq!(e.binary_lower.as_deref(), Some("firefox-bin"));
    assert_eq!(e.client_index, u32::MAX);
    assert_eq!((e.index, e.channels, e.muted), (4, 6, true));
    assert_eq!(stream(1, None, Some("Own"), false).name_lower, "own");
    assert_eq!(stream(1, None, None, false).name, "unknown");
    assert_eq!(stream(1, Some("\u{c4}rger"), None, false).name_lower, "\u{e4}rger");
}

fn names(v: &[&str]) -> Vec<String> {
    v.iter().map(|s| s.to_string()).collect()
}

#[test]
fn every_stream_meets_every_target() {
    let entries = vec![
        stream(10, Some("Firefox"), None, false),
        stream(11, Some("SDL Application"), None, false),
        stream(12, Some("Mumble"), None, false),
    ];
    let targets = match_targets(&names(&["FireFox", "Dota", "vlc"]));
    assert_eq!(targets, names(&["firefox", "dota", "vlc"]));
    let comms = vec![None, Some("dota2".to_string()), None];
    let r = match_streams(&entries, &comms, &targets);
    assert_eq!(r.matched, vec![true, true, false]);
    assert_eq!(r.to_set, vec![(10, 2), (11, 2)]);
    assert!(needs_comm(&entries[0], &targets));
    assert!(!needs_comm(&entries[0], &names(&["fire", "fox"])));
    assert!(!needs_comm(&entries[0], &vec![]));
}

#[test]
fn an_unneeded_command_changes_nothing() {
    let entries = vec![stream(1, Some("Firefox"), None, false)];
    let targets = names(&["fire"]);
    assert!(!needs_comm(&entries[0], &targets));
    let without = match_streams(&entries, &vec![None], &targets);
    let with = match_streams(&entries, &vec![Some("other".to_string())], &targets);
    assert_eq!(without.matched, with.matched);
    assert_eq!(without.to_set, with.to_set);
}

#[test]
fn muting_an_app_treats_its_streams_alike() {
    let mut entries = vec![
        stream(1, Some("Firefox"), None, true),
        stream(2, Some("Firefox"), None, false),
        stream(3, Some("Mumble"), None, false),
    ];
    let comms = vec![None, None, None];
    let plan = toggle_app_mute(&entries, &comms, "firefox").unwrap();
    assert_eq!(plan.indices, vec![1, 2]);
    assert!(plan.mute);
    entries[1].muted = true;
    let plan = toggle_app_mute(&entries, &comms, "firefox").unwrap();
    assert!(!plan.mute);
    assert!(toggle_app_mute(&entries, &comms, "vlc").is_none());
}

#[test]
fn processes_are_found_by_number() {
    let mut e = stream(5, Some("a"), None, false);
    assert!(matches!(resolve_pid(&e), PidSource::Client(5)));
    e.client_index = u32::MAX;
    assert!(matches!(resolve_pid(&e), PidSource::Unknown));
    e.pid = Some("42".to_string());
    assert!(matches!(resolve_pid(&e), PidSource::Known(p) if p == "42"));
    assert_eq!(comm_path("42").as_deref(), Some("/proc/42/comm"));
    assert_eq!(comm_path("4x"), None);
    assert_eq!(comm_path("../1"), None);
    assert_eq!(comm_of(Some(" Dota2\n".to_string())).as_deref(), Some("dota2"));
    assert_eq!(comm_of(None), None);
    let secure = Some("1".to_string());
    let claimed = Some("2".to_string());
    assert_eq!(get_client_pid(secure, claimed).as_deref(), Some("1"));
    assert_eq!(get_client_pid(None, Some("2".to_string())).as_deref(), Some("2"));
}

#[test]
fn default_devices_have_names() {
    assert_eq!(Target::DefaultSink.pa_name(), "@DEFAULT_SINK@");
    assert_eq!(Target::DefaultSource.pa_name(), "@DEFAULT_SOURCE@");
    assert_eq!(Target::DefaultSink.label(), "system");
    assert_eq!(Target::DefaultSource.label(), "mic");
    assert_eq!(Target::DefaultSink.default_channels(), 2);
    assert_eq!(Target::DefaultSource.default_channels(), 1);
}

#[test]
fn mute_queries_tell_errors_apart() {
    let mut q = MuteQuery::new();
    assert_eq!(q.query_default_mute(Target::DefaultSource).unwrap_err(), "mic not found");
    q.observe(Listed::End);
    assert_eq!(q.query_default_mute(Target::DefaultSink).unwrap_err(), "system not found");
    q.observe(Listed::Item(true));
    assert_eq!(q.query_default_mute(Target::DefaultSink), Ok(true));
    q.observe(Listed::Error);
    q.observe(Listed::Item(false));
    assert_eq!(
        q.query_default_mute(Target::DefaultSink).unwrap_err(),
        "PulseAudio enumeration error while querying system"
    );
}

#[test]
fn an_unconfirmed_mute_is_asked_for_again() {
    assert_eq!(toggle_default_mute(false, Some(true)), MuteSettled::Confirmed(true));
    assert_eq!(toggle_default_mute(true, Some(true)), MuteSettled::Confirmed(false));
    assert_eq!(toggle_default_mute(true, Some(false)), MuteSettled::AskAgain);
    assert_eq!(toggle_default_mute(true, None), MuteSettled::AskAgain);
}

fn app(name: &str, binary: Option<&str>, pid: Option<&str>) -> AppInfo {
    AppInfo {
        name: name.to_string(),
        binary: binary.map(String::from),
        pid: pid.map(String::from),
    }
}

#[test]
fn apps_are_listed_in_columns() {
    let firefox = app("Firefox", Some("firefox"), Some("2185"));
    assert_eq!(list_comm_path(&firefox).as_deref(), Some("/proc/2185/comm"));
    assert_eq!(
        list_line(&firefox, Some("firefox\n".to_string())),
        "  Firefox                  (PID: 2185)"
    );
    let sdl = app("SDL Application", None, Some("38481"));
    assert_eq!(
        list_line(&sdl, Some("dota2\n".to_string())),
        "  SDL Application          (PID: 38481, binary: dota2)"
    );
    let named = app("SDL Application", Some("hl2"), Some("1"));
    assert_eq!(list_comm_path(&named), None);
    assert_eq!(
        list_line(&named, None),
        "  SDL Application          (PID: 1, binary: hl2)"
    );
    let unknown = app("A name that is longer than the column", None, None);
    assert_eq!(
        list_line(&unknown, Some("ignored".to_string())),
        "  A name that is longer than the column (PID: ?)"
    );
}

#[test]
fn listings_know_the_process_of_a_client() {
    let info = app_info(stream(7, Some("a"), None, false), Some("99".to_string()));
    assert_eq!(info.pid.as_deref(), Some("99"));
    let mut e = stream(7, Some("a"), None, false);
    e.client_index = u32::MAX;
    assert_eq!(app_info(e, Some("99".to_string())).pid, None);
    let mut e = stream(7, Some("a"), None, false);
    e.pid = Some("1".to_string());
    assert_eq!(app_info(e, Some("99".to_string())).pid.as_deref(), Some("1"));
}

#[test]
fn a_burst_of_volumes_is_one_write() {
    let mut queue = PersistQueue::new();
    let entries = vec![stream(3, Some("Firefox"), None, false)];
    let apps = names(&["Firefox", "vlc"]);
    let t0 = Instant::from_millis(1_000);
    for (value, ms) in [(10u8, 0u64), (20, 50), (30, 100)] {
        let plan = queue.set_app_volumes(&apps, &entries, &vec![None], value, t0.plus_millis(ms));
        assert_eq!(plan.matched, vec![true, false]);
        assert_eq!(plan.to_set, vec![(3, 2)]);
        assert_eq!(plan.volume, volume_from_u8(value));
    }
    assert!(queue.flush_persist_writes(t0.plus_millis(100 + PERSIST_IDLE_MS - 1)).is_empty());
    let ready = queue.flush_persist_writes(t0.plus_millis(100 + PERSIST_IDLE_MS));
    assert_eq!(ready, vec![("firefox".to_string(), volume_from_u8(30))]);
    assert!(queue.flush_persist_writes(t0.plus_millis(10_000)).is_empty());
}

#[test]
fn volumes_wait_each_for_themselves() {
    let mut queue = PersistQueue::new();
    let targets = names(&["a", "b"]);
    queue.stash(&targets, &vec![true, false], Volume(1), Instant::from_millis(0));
    queue.stash(&targets, &vec![false, true], Volume(2), Instant::from_millis(150));
    let ready = queue.flush_persist_writes(Instant::from_millis(200));
    assert_eq!(ready, vec![("a".to_string(), Volume(1))]);
    let ready = queue.flush_persist_writes(Instant::from_millis(350));
    assert_eq!(ready, vec![("b".to_string(), Volume(2))]);
}

#[test]
fn restore_entries_change_as_they_should() {
    let entries = vec![
        RestoreEntry { name: Some("sink-input-by-app:Firefox".into()), volumes: vec![1, 2], mute: true },
        RestoreEntry { name: None, volumes: vec![3], mute: false },
        RestoreEntry { name: Some("vlc".into()), volumes: vec![4], mute: false },
        RestoreEntry { name: Some("FIREFOX 2".into()), volumes: vec![5], mute: false },
    ];
    let w = update_stream_restore(&entries, "firefox", RestoreUpdate::SetVolume(Volume(9)));
    assert_eq!(w.len(), 2);
    assert_eq!((w[0].index, &w[0].volumes, w[0].mute), (0, &vec![9, 9], true));
    assert_eq!((w[1].index, &w[1].volumes, w[1].mute), (3, &vec![9], false));
    let w = update_stream_restore(&entries, "vlc", RestoreUpdate::SetMute(true));
    assert_eq!(w.len(), 1);
    assert_eq!((w[0].index, &w[0].volumes, w[0].mute), (2, &vec![4], true));
    assert!(update_stream_restore(&entries, "mpv", RestoreUpdate::SetMute(true)).is_empty());
    assert!(restore_outcome(true).is_ok());
    assert_eq!(restore_outcome(false).unwrap_err(), "stream-restore write rejected by server");
}

fn failure(v: Verdict) -> String {
    match v {
        Verdict::Failed(m) => m,
        other => panic!("unexpected {other:?}"),
    }
}

#[test]
fn waits_end_in_time() {
    let t0 = Instant::from_millis(10);
    let mut wait = Wait::start(t0);
    assert!(matches!(wait.check(true, t0), Verdict::Done));
    assert!(matches!(wait.check(false, t0.plus_millis(DEADLINE_MS - 1)), Verdict::Iterate));
    assert_eq!(
        failure(wait.check(false, t0.plus_millis(DEADLINE_MS))),
        "PulseAudio call exceeded 250ms deadline"
    );
    assert!(matches!(wait.check(true, t0.plus_millis(DEADLINE_MS)), Verdict::Done));
    for _ in 0..MAX_ITERATIONS {
        assert!(matches!(wait.check(false, t0), Verdict::Iterate));
        assert!(wait.iterated(Iterated::Success, None).is_ok());
    }
    assert_eq!(failure(wait.check(false, t0)), "PulseAudio call exceeded 1000 iterations");
}

#[test]
fn waits_fail_with_the_main_loop() {
    let mut wait = Wait::start(Instant::from_millis(0));
    assert_eq!(
        wait.iterated(Iterated::Error("e".to_string()), None).unwrap_err(),
        "PulseAudio mainloop error: e"
    );
    assert_eq!(wait.iterated(Iterated::Quit, None).unwrap_err(), "PulseAudio mainloop quit");
    assert_eq!(
        wait.iterated(Iterated::Success, Some("Failed".to_string())).unwrap_err(),
        "PulseAudio context not ready: Failed"
    );
    assert_eq!(wait.iterations, 3);
    assert_eq!(write_outcome(Ok(()), Some(false)), Ok(false));
    assert_eq!(write_outcome(Ok(()), None).unwrap_err(), "PA write did not complete");
    assert_eq!(write_outcome(Err("late".to_string()), Some(true)).unwrap_err(), "late");
}

#[test]
fn connections_come_to_an_end() {
    assert!(matches!(connect_step(Iterated::Success, ContextState::Ready), Verdict::Done));
    assert!(matches!(connect_step(Iterated::Success, ContextState::Other), Verdict::Iterate));
    assert_eq!(
        failure(connect_step(Iterated::Success, ContextState::Failed)),
        "PulseAudio connection failed"
    );
    assert_eq!(
        failure(connect_step(Iterated::Success, ContextState::Terminated)),
        "PulseAudio connection failed"
    );
    assert_eq!(
        failure(connect_step(Iterated::Error("x".to_string()), ContextState::Ready)),
        "mainloop iterate error: x"
    );
    assert_eq!(
        failure(connect_step(Iterated::Quit, ContextState::Ready)),
        "mainloop quit unexpectedly"
    );
}

#[test]
fn new_connections_have_a_deadline() {
    let t0 = Instant::from_millis(1_000);
    let step = |state, ms| reconnect_step(Iterated::Success, state, t0, t0.plus_millis(ms));
    assert_eq!(CONNECT_DEADLINE_MS, 3_000);
    assert!(matches!(step(ContextState::Other, 2_999), Verdict::Iterate));
    assert_eq!(
        failure(step(ContextState::Other, 3_000)),
        "PulseAudio connection exceeded 3s deadline"
    );
    assert!(matches!(step(ContextState::Ready, 3_000), Verdict::Done));
    assert_eq!(failure(step(ContextState::Failed, 0)), "PulseAudio connection failed");
}

#[test]
fn muting_an_app_takes_its_name_in_any_case() {
    let entries = vec![stream(1, Some("Firefox"), None, false), stream(2, Some("vlc"), None, false)];
    let plan = toggle_app_mute(&entries, &vec![None, None], "FireFox").unwrap();
    assert_eq!(plan.indices, vec![1]);
    assert!(plan.mute);
}

#[test]
fn one_app_is_set_like_several() {
    let mut queue = PersistQueue::new();
    let entries = vec![stream(3, Some("Firefox"), None, false), stream(4, Some("vlc"), None, false)];
    let comms = vec![None, None];
    let t0 = Instant::from_millis(1_000);
    let plan = queue.set_app_volume("FIREFOX", &entries, &comms, 30, t0);
    assert!(plan.found);
    assert_eq!(plan.to_set, vec![(3, 2)]);
    assert_eq!(plan.volume, volume_from_u8(30));
    let plan = queue.set_app_volume("mumble", &entries, &comms, 40, t0);
    assert!(!plan.found);
    assert!(plan.to_set.is_empty());
    let ready = queue.flush_persist_writes(t0.plus_millis(PERSIST_IDLE_MS));
    assert_eq!(ready, vec![("firefox".to_string(), volume_from_u8(30))]);
}
