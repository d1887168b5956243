//! The runtime state: flashes, indicators and events.
use pcp_rust::clock::{Clock, Instant};
use pcp_rust::config::{LogoConfig, LogoIndicator, ObsColors, RgbColor};
use pcp_rust::obs::{ObsCommand, ObsEvent, ObsHandle};
use pcp_rust::runtime::{BlinkConfig, Flash, ObsRuntime, ObsState, BLINK_CYCLE_MS, MIC_FRESH_MS};

const RED: RgbColor = RgbColor { r: 0xFF, g: 0, b: 0 };
const BLACK: RgbColor = RgbColor { r: 0, g: 0, b: 0 };

fn start() -> Instant {
    Instant::from_millis(1_000_000)
}

fn solid(started: Instant) -> Flash {
    Flash { color: RED, expires_at: started.plus_millis(60_000), blink: None }
}

fn blink(started: Instant) -> Flash {
    Flash {
        color: RED,
        expires_at: started.plus_millis(60_000),
        blink: Some(BlinkConfig { started_at: started, cycle_ms: BLINK_CYCLE_MS }),
    }
}

#[test]
fn solid_flash_is_time_invariant() {
    let t0 = start();
    let f = solid(t0);
    assert_eq!(f.current_color_at(t0), RED);
    assert_eq!(f.current_color_at(t0.plus_millis(50)), RED);
    assert_eq!(f.current_color_at(t0.plus_millis(10_000)), RED);
}

#[test]
fn blink_flash_phases() {
    let t0 = start();
    let f = blink(t0);
    let at = |offset_ms| f.current_color_at(t0.plus_millis(offset_ms));
    assert_eq!(at(0), RED);
    assert_eq!(at(50), RED);
    assert_eq!(at(99), RED);
    assert_eq!(at(100), BLACK);
    assert_eq!(at(150), BLACK);
    assert_eq!(at(199), BLACK);
    assert_eq!(at(200), RED);
    assert_eq!(at(299), RED);
    assert_eq!(at(300), BLACK);
    assert_eq!(at(400), RED);
}

#[test]
fn blink_flash_before_started_clamps_to_on() {
    let f = blink(start());
    let earlier = Instant { nanos: start().nanos - 50_000_000 };
    assert_eq!(f.current_color_at(earlier), RED);
}

fn fresh_runtime() -> ObsRuntime {
    ObsRuntime::new(None, ObsColors::default(), false, LogoConfig::default())
}

#[test]
fn apply_replay_buffer_state_transitions() {
    let mut obs = fresh_runtime();
    assert_eq!(obs.replay_buffer_active, None);

    assert!(obs.apply_event(ObsEvent::ReplayBufferActive));
    assert_eq!(obs.replay_buffer_active, Some(true));

    assert!(!obs.apply_event(ObsEvent::ReplayBufferActive));
    assert_eq!(obs.replay_buffer_active, Some(true));

    assert!(obs.apply_event(ObsEvent::ReplayBufferInactive));
    assert_eq!(obs.replay_buffer_active, Some(false));

    assert!(!obs.apply_event(ObsEvent::ReplayBufferInactive));
}

#[test]
fn apply_disconnect_resets_replay_state_and_is_dirty() {
    let mut obs = fresh_runtime();
    obs.apply_event(ObsEvent::Connected);
    obs.apply_event(ObsEvent::ReplayBufferActive);
    assert_eq!(obs.replay_buffer_active, Some(true));

    assert!(obs.apply_event(ObsEvent::Disconnected));
    assert_eq!(obs.replay_buffer_active, None);
    assert!(!obs.connected);
}

#[test]
fn logo_indicator_mic_picks_color_per_mute_state() {
    let red = RgbColor { r: 0xFF, g: 0, b: 0 };
    let green = RgbColor { r: 0, g: 0xFF, b: 0 };
    let cfg = LogoConfig {
        indicator: LogoIndicator::Mic,
        mic_muted: red,
        mic_unmuted: green,
        ..Default::default()
    };
    let mut obs = ObsRuntime::new(None, ObsColors::default(), false, cfg);
    assert!(obs.mic_indicator_enabled());
    assert_eq!(obs.logo_indicator_color(), Some(green));
    obs.mic_muted = true;
    assert_eq!(obs.logo_indicator_color(), Some(red));
}

#[test]
fn logo_indicator_replay_requires_connected() {
    let green = RgbColor { r: 0, g: 0xFF, b: 0 };
    let black = RgbColor { r: 0, g: 0, b: 0 };
    let cfg = LogoConfig {
        indicator: LogoIndicator::Replay,
        replay_active: green,
        replay_inactive: black,
        ..Default::default()
    };
    let mut obs = ObsRuntime::new(None, ObsColors::default(), false, cfg);
    assert!(!obs.mic_indicator_enabled());
    assert_eq!(obs.logo_indicator_color(), None);

    obs.apply_event(ObsEvent::Connected);
    assert_eq!(obs.logo_indicator_color(), Some(black));
    obs.apply_event(ObsEvent::ReplayBufferActive);
    assert_eq!(obs.logo_indicator_color(), Some(green));
}

#[test]
fn logo_indicator_none_never_overrides() {
    let obs = ObsRuntime::new(None, ObsColors::default(), false, LogoConfig::default());
    assert_eq!(obs.logo_cfg.indicator, LogoIndicator::Off);
    assert!(!obs.mic_indicator_enabled());
    assert_eq!(obs.logo_indicator_color(), None);
}

#[test]
fn apply_connected_dirty_only_on_transition() {
    let mut obs = fresh_runtime();
    assert!(obs.apply_event(ObsEvent::Connected));
    assert!(obs.connected);

    assert!(!obs.apply_event(ObsEvent::Connected));
}

#[test]
fn the_clock_goes_forward() {
    let clock = Clock::start();
    let first = clock.now();
    let mut later = clock.now();
    while later == first {
        later = clock.now();
    }
    assert!(later.nanos > first.nanos);
    assert_eq!(solid(first).current_color(&clock), RED);
}

#[test]
fn recording_events_set_the_state() {
    let mut obs = fresh_runtime();
    assert!(obs.apply_event(ObsEvent::RecordingActive));
    assert_eq!(obs.state(), ObsState::Recording);
    assert!(!obs.apply_event(ObsEvent::RecordingResumed));
    assert!(obs.apply_event(ObsEvent::RecordingPaused));
    assert_eq!(obs.state(), ObsState::RecordingPaused);
    assert!(obs.apply_event(ObsEvent::RecordingResumed));
    assert!(obs.apply_event(ObsEvent::RecordingStopped));
    assert_eq!(obs.state(), ObsState::Idle);
    assert!(!obs.apply_event(ObsEvent::RecordingStopped));
}

#[test]
fn outcomes_of_commands_flash() {
    let now = start();
    let mut obs = fresh_runtime();
    let colors = obs.colors();
    assert!(!obs.apply_event_at(ObsEvent::CommandSucceeded(ObsCommand::ToggleRecording), now));
    assert!(obs.flash().is_none());
    assert!(obs.apply_event_at(ObsEvent::CommandSucceeded(ObsCommand::SaveReplay), now));
    let flash = obs.flash().unwrap();
    assert_eq!(flash.color, colors.success_flash);
    assert!(flash.blink.is_none());
    assert!(obs.apply_event_at(
        ObsEvent::CommandFailed(ObsCommand::SaveReplay, "no".to_string()),
        now
    ));
    let flash = obs.flash().unwrap();
    assert_eq!(flash.color, colors.error_flash);
    assert!(flash.blink.is_some());
    assert!(obs.apply_event_at(ObsEvent::CanvasMatchFailed("no".to_string()), now));
}

#[test]
fn a_flash_lasts_for_its_duration() {
    let now = start();
    let mut obs = fresh_runtime();
    let duration = obs.colors().flash_duration_ms;
    obs.apply_event_at(ObsEvent::CommandSucceeded(ObsCommand::SplitRecording), now);
    assert!(!obs.expire_flash_at(now.plus_millis(duration - 1)));
    assert!(obs.flash().is_some());
    assert!(obs.expire_flash_at(now.plus_millis(duration)));
    assert!(obs.flash().is_none());
    assert!(!obs.expire_flash_at(now.plus_millis(duration + 1)));
    obs.apply_event_at(
        ObsEvent::CommandFailed(ObsCommand::SaveReplay, "no".to_string()),
        now,
    );
    assert!(obs.expire_flash_at(now.plus_millis(1)));
    assert!(obs.flash().is_some());
}

#[test]
fn an_unconfirmed_microphone_blinks() {
    let cfg = LogoConfig { indicator: LogoIndicator::Mic, ..Default::default() };
    let mut obs = ObsRuntime::new(None, ObsColors::default(), false, cfg);
    let now = start();
    assert!(obs.update_mic_muted(true, now));
    assert!(!obs.update_mic_muted(true, now.plus_millis(10)));
    let confirmed = now.plus_millis(10);
    let fresh = confirmed.plus_millis(MIC_FRESH_MS - 1);
    assert_eq!(obs.logo_indicator_color_at(fresh), Some(cfg.mic_muted));
    assert!(!obs.mic_indicator_needs_repaint(fresh));
    let stale = confirmed.plus_millis(MIC_FRESH_MS);
    assert!(obs.mic_indicator_needs_repaint(stale));
    assert_eq!(obs.logo_indicator_color_at(stale), Some(cfg.mic_unknown));
    assert_eq!(obs.logo_indicator_color_at(stale.plus_millis(100)), Some(BLACK));
    assert!(obs.update_mic_muted(true, stale));
    obs.set_mic_muted(false, stale);
    assert_eq!(obs.logo_indicator_color_at(stale), Some(cfg.mic_unmuted));
}

#[test]
fn commands_without_a_connection_flash_an_error() {
    let mut obs = fresh_runtime();
    assert!(obs.dispatch(ObsCommand::SaveReplay));
    assert_eq!(obs.flash().unwrap().color, obs.colors().error_flash);
    assert!(!obs.drain_events());
}

#[test]
fn commands_and_events_go_through_the_channels() {
    let (commands_tx, mut commands_rx) = tokio::sync::mpsc::channel(1);
    let (events_tx, events_rx) = tokio::sync::mpsc::channel(8);
    let handle = ObsHandle { commands_tx, events_rx };
    let mut obs = ObsRuntime::new(Some(handle), ObsColors::default(), false, LogoConfig::default());
    assert!(obs.dispatch(ObsCommand::SplitRecording));
    assert!(commands_rx.try_recv().is_err());
    events_tx.try_send(ObsEvent::Connected).unwrap();
    events_tx.try_send(ObsEvent::RecordingActive).unwrap();
    assert!(obs.drain_events());
    assert!(obs.connected());
    assert_eq!(obs.state(), ObsState::Recording);
    assert!(!obs.drain_events());
    assert!(!obs.dispatch(ObsCommand::SplitRecording));
    assert_eq!(commands_rx.try_recv().unwrap(), ObsCommand::SplitRecording);
    assert!(!obs.dispatch(ObsCommand::PauseRecording));
    assert!(obs.dispatch(ObsCommand::SaveReplay));
    assert_eq!(commands_rx.try_recv().unwrap(), ObsCommand::PauseRecording);
}

#[test]
fn the_last_report_wins() {
    let mut obs = fresh_runtime();
    for event in [ObsEvent::RecordingActive, ObsEvent::RecordingPaused, ObsEvent::RecordingStopped] {
        obs.apply_event(event);
    }
    assert_eq!(obs.state(), ObsState::Idle);
}

#[test]
fn an_expired_flash_is_cleared_by_the_clock() {
    let mut obs = fresh_runtime();
    assert!(!obs.expire_flash());
    let past = Flash { color: RED, expires_at: Instant { nanos: 0 }, blink: None };
    obs.flash = Some(past);
    assert!(obs.expire_flash());
    assert!(obs.flash().is_none());
}
