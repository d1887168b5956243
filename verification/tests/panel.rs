//! Events of the panel and the main loop.
use pcp_rust::audio::Target;
use pcp_rust::clock::Instant;
use pcp_rust::config::{parse_config, AppTarget, Config};
use pcp_rust::controller::{Controller, Demand, Happened};
use pcp_rust::device::{Control, Event};
use pcp_rust::obs::{ObsCommand, ObsEvent, ObsHandle};
use pcp_rust::osd::OsdCall;
use pcp_rust::panel::{named_target_names, Effect, Outcome, PanelTask, Work};
use pcp_rust::poller::{
    reconnect_panel, refresh_mic_muted, AudioReconnector, MicPoller, PollNote, POLL_INTERVAL_MS,
};
use pcp_rust::runtime::ObsRuntime;

fn config(text: &str) -> Config {
    parse_config(text).unwrap()
}

fn slider(value: u8) -> Event {
    Event::AnalogChange { control: Control::Slider(0), value }
}

fn press(index: u8) -> Event {
    Event::ButtonPress { index }
}

fn show(effects: &Vec<Effect>) -> String {
    format!("{effects:?}")
}

fn next(task: &mut PanelTask, outcome: Outcome) -> String {
    assert!(task.expects(&outcome));
    let effects = task.advance(outcome);
    show(&effects)
}

#[test]
fn names_are_asked_for_at_once_and_devices_in_turn() {
    let c = config("[slider1]\naction = \"volume\"\napp = [\"A\", \"system\", \"B\", \"mic\"]\n");
    let (mut task, effects) = PanelTask::handle_panel_event(slider(255), &c, true);
    assert!(effects.is_empty());
    match task.work() {
        Work::SetAppVolumes { names, value } => {
            assert_eq!(names, vec!["A", "B"]);
            assert_eq!(value, 255);
        }
        other => panic!("unexpected {other:?}"),
    }
    assert_eq!(
        next(&mut task, Outcome::AppVolumes(Some(vec![true, false]))),
        "[Trace(\"A volume: 100%\")]"
    );
    assert!(matches!(
        task.work(),
        Work::SetVolume { device: Target::DefaultSink, value: 255 }
    ));
    assert_eq!(
        next(&mut task, Outcome::Volume(true)),
        "[Trace(\"system volume: 100%\")]"
    );
    assert!(matches!(
        task.work(),
        Work::SetVolume { device: Target::DefaultSource, value: 255 }
    ));
    assert_eq!(
        next(&mut task, Outcome::Volume(true)),
        "[Trace(\"mic volume: 100%\"), Popup(VolumeChanged { percent: 100 })]"
    );
    assert!(matches!(task.work(), Work::Finished));
}

#[test]
fn the_popup_of_the_microphone_comes_second() {
    let c = config("[slider1]\naction = \"volume\"\napp = [\"system\", \"mic\"]\n");
    let (mut task, _) = PanelTask::handle_panel_event(slider(0), &c, false);
    assert_eq!(next(&mut task, Outcome::Volume(false)), "[]");
    assert_eq!(
        next(&mut task, Outcome::Volume(true)),
        "[Popup(MicrophoneVolumeChanged { percent: 0 })]"
    );
}

#[test]
fn the_popup_of_apps_names_those_that_run() {
    let c = config(
        "[slider1]\naction = \"volume\"\napp = [\"A\", \"B\", \"C\"]\nicon = \"my-icon\"\n",
    );
    let (mut task, _) = PanelTask::handle_panel_event(slider(128), &c, false);
    assert_eq!(next(&mut task, Outcome::AppVolumes(Some(vec![true, false, true]))), "[]");
    match task.work() {
        Work::FindIcon { icon, names } => {
            assert_eq!(icon.as_deref(), Some("my-icon"));
            assert_eq!(names, vec!["A", "C"]);
        }
        other => panic!("unexpected {other:?}"),
    }
    let effects = task.advance(Outcome::Icon(None));
    match &effects[..] {
        [Effect::Popup(OsdCall::MediaPlayerVolumeChanged { percent, player_name, icon })] => {
            assert_eq!(*percent, 50);
            assert_eq!(player_name, "A\nC");
            assert_eq!(icon, "");
        }
        other => panic!("unexpected {other:?}"),
    }
}

#[test]
fn nothing_is_shown_where_nothing_runs() {
    let c = config("[slider1]\naction = \"volume\"\napp = [\"A\", \"B\"]\n");
    let (mut task, _) = PanelTask::handle_panel_event(slider(1), &c, true);
    assert_eq!(next(&mut task, Outcome::AppVolumes(None)), "[]");
    assert!(matches!(task.work(), Work::Finished));
    let (mut task, _) = PanelTask::handle_panel_event(slider(1), &c, true);
    assert_eq!(next(&mut task, Outcome::AppVolumes(Some(vec![false, false]))), "[]");
    assert!(matches!(task.work(), Work::Finished));
}

#[test]
fn unmapped_controls_lead_to_nothing() {
    let c = config("[slider1]\naction = \"volume\"\napp = \"A\"\n");
    for event in [
        Event::AnalogChange { control: Control::Knob(0), value: 1 },
        press(0),
        Event::ButtonRelease { index: 0 },
    ] {
        let (task, effects) = PanelTask::handle_panel_event(event, &c, true);
        assert!(effects.is_empty());
        assert!(matches!(task.work(), Work::Finished));
        assert!(!task.expects(&Outcome::Volume(true)));
    }
}

#[test]
fn mutes_are_toggled_one_by_one() {
    let c = config("[button1]\naction = \"toggle-mute\"\napp = [\"system\", \"mic\", \"Vlc\", \"A\"]\n");
    let (mut task, _) = PanelTask::handle_panel_event(press(0), &c, true);
    assert!(matches!(task.work(), Work::ToggleMute { device: Target::DefaultSink }));
    assert_eq!(
        next(&mut task, Outcome::Mute(Some(true))),
        "[Trace(\"system mute: on\"), \
         Popup(ShowText { icon: \"audio-volume-muted\", text: \"System: Muted\" })]"
    );
    assert!(matches!(task.work(), Work::ToggleMute { device: Target::DefaultSource }));
    assert_eq!(
        next(&mut task, Outcome::Mute(Some(false))),
        "[Trace(\"mic mute: off\"), MicMuted(false), \
         Popup(ShowText { icon: \"microphone-sensitivity-high\", text: \"Microphone: Unmuted\" })]"
    );
    assert!(matches!(task.work(), Work::ToggleAppMute { name } if name == "Vlc"));
    assert_eq!(next(&mut task, Outcome::Mute(Some(true))), "[Trace(\"Vlc mute: on\")]");
    assert!(matches!(task.work(), Work::FindIcon { icon: None, names } if names == vec!["Vlc"]));
    assert_eq!(
        next(&mut task, Outcome::Icon(Some("vlc".to_string()))),
        "[Popup(ShowText { icon: \"vlc\", text: \"Vlc: Muted\" })]"
    );
    assert!(matches!(task.work(), Work::ToggleAppMute { name } if name == "A"));
    assert_eq!(next(&mut task, Outcome::Mute(None)), "[]");
    assert!(matches!(task.work(), Work::Finished));
}

#[test]
fn commands_are_dispatched() {
    let c = config(
        "[obs]\n[button1]\naction = \"obs-save-replay\"\n[button2]\naction = \"obs-toggle-recording\"\n\
         [button3]\naction = \"obs-pause-recording\"\n[button4]\naction = \"obs-split-recording\"\n",
    );
    for (i, word) in ["SaveReplay", "ToggleRecording", "PauseRecording", "SplitRecording"]
        .iter()
        .enumerate()
    {
        let (task, effects) = PanelTask::handle_panel_event(press(i as u8), &c, false);
        assert_eq!(show(&effects), format!("[Dispatch({word})]"));
        assert!(matches!(task.work(), Work::Finished));
    }
    let (_, effects) = PanelTask::handle_panel_event(press(0), &c, true);
    assert_eq!(show(&effects), "[Trace(\"OBS: save replay buffer\"), Dispatch(SaveReplay)]");
}

#[test]
fn names_are_picked_from_targets() {
    let targets = vec![
        AppTarget::System,
        AppTarget::Named("x".to_string()),
        AppTarget::Mic,
        AppTarget::Named("y".to_string()),
    ];
    assert_eq!(named_target_names(&targets), vec!["x", "y"]);
}

const MIC_LOGO: &str = "[logo]\nindicator = \"mic\"\n";

fn mic_runtime() -> ObsRuntime {
    let c = config(MIC_LOGO);
    ObsRuntime::new(None, Default::default(), false, c.logo)
}

#[test]
fn the_microphone_is_polled_in_its_interval() {
    let t0 = Instant::from_millis(5_000);
    let mut obs = mic_runtime();
    let mut poller = MicPoller::new();
    assert!(poller.tick(&obs, t0));
    assert!(!poller.tick(&obs, t0.plus_millis(POLL_INTERVAL_MS - 1)));
    assert!(poller.tick(&obs, t0.plus_millis(POLL_INTERVAL_MS)));
    assert_eq!(poller.polled(&mut obs, None, t0), (false, PollNote::FirstFailure));
    assert_eq!(poller.polled(&mut obs, None, t0), (false, PollNote::Nothing));
    let (_, note) = poller.polled(&mut obs, Some(true), t0);
    assert_eq!(note, PollNote::Recovered { outage_ms: 500 });
    assert!(obs.mic_muted);
    assert_eq!(poller.polled(&mut obs, Some(false), t0), (true, PollNote::Nothing));
    assert_eq!(poller.polled(&mut obs, Some(false), t0), (false, PollNote::Nothing));
    let plain = ObsRuntime::new(None, Default::default(), false, Default::default());
    assert!(!MicPoller::new().tick(&plain, t0));
}

#[test]
fn a_failed_query_does_not_delay_the_next() {
    let t0 = Instant::from_millis(5_000);
    let mut obs = mic_runtime();
    let mut poller = MicPoller::new();
    poller.refresh_now(&mut obs, None, t0);
    assert!(poller.last_poll.is_none());
    poller.refresh_now(&mut obs, Some(true), t0);
    assert_eq!(poller.last_poll, Some(t0));
    assert!(obs.mic_muted);
    assert!(!refresh_mic_muted(&mut obs, None, t0));
    assert!(refresh_mic_muted(&mut obs, Some(false), t0));
    assert!(!obs.mic_muted);
}

#[test]
fn attempts_to_reach_pulseaudio_are_spaced() {
    let t0 = Instant::from_millis(0);
    let mut link = AudioReconnector::new();
    assert!(!link.tick(true, t0));
    assert!(link.tick(false, t0));
    link.attempted(false, t0);
    assert!(!link.tick(false, Instant::from_millis(1_999)));
    assert!(link.tick(false, Instant::from_millis(2_000)));
    link.attempted(false, Instant::from_millis(2_000));
    assert!(!link.tick(false, Instant::from_millis(5_999)));
    assert!(link.tick(false, Instant::from_millis(6_000)));
    link.attempted(false, Instant::from_millis(6_000));
    assert!(!link.tick(false, Instant::from_millis(10_999)));
    assert!(link.tick(false, Instant::from_millis(11_000)));
    link.attempted(true, Instant::from_millis(11_000));
    assert!(link.tick(false, Instant::from_millis(11_001)));
}

#[test]
fn attempts_to_open_the_panel_are_spaced() {
    let mut b = reconnect_panel();
    assert_eq!((b.wait(), b.wait(), b.wait(), b.wait(), b.wait(), b.wait()), (2, 4, 8, 16, 30, 30));
}

fn take(c: &mut Controller, happened: Happened) -> String {
    assert!(c.expects(&happened));
    let now = c.now();
    let report = c.advance(happened, now);
    show(&report.effects)
}

fn asks(c: &Controller) -> String {
    let now = c.now();
    let text = format!("{:?}", c.demand(now));
    text.split('(').next().unwrap().to_string()
}

fn quiet_until_reading(c: &mut Controller) {
    c.begin_round();
    assert_eq!(asks(c), "CheckResume");
    take(c, Happened::Resumed(false));
    assert_eq!(asks(c), "CheckAudio");
    take(c, Happened::AudioConnected(true));
    assert_eq!(asks(c), "FlushPersist");
    take(c, Happened::Done);
    assert_eq!(asks(c), "ReadPanel");
}

fn started(text: &str, handle: Option<ObsHandle>) -> Controller {
    let mut c = Controller::new(config(text), handle, false);
    assert_eq!(asks(&c), "Paint");
    take(&mut c, Happened::Done);
    assert_eq!(asks(&c), "NextRound");
    c
}

#[test]
fn quiet_rounds_paint_nothing() {
    let mut c = started("", None);
    for _ in 0..3 {
        quiet_until_reading(&mut c);
        take(&mut c, Happened::Panel(None));
        assert_eq!(asks(&c), "NextRound");
    }
}

#[test]
fn waking_up_repaints() {
    let mut c = started("", None);
    c.begin_round();
    take(&mut c, Happened::Resumed(true));
    assert_eq!(asks(&c), "CheckAudio");
    take(&mut c, Happened::AudioConnected(true));
    take(&mut c, Happened::Done);
    take(&mut c, Happened::Panel(None));
    assert_eq!(asks(&c), "Paint");
    take(&mut c, Happened::Done);
    assert_eq!(asks(&c), "NextRound");
}

#[test]
fn a_new_panel_is_painted() {
    let mut c = started("", None);
    quiet_until_reading(&mut c);
    take(&mut c, Happened::PanelLost);
    assert_eq!(asks(&c), "ReopenPanel");
    take(&mut c, Happened::Done);
    assert_eq!(asks(&c), "Paint");
}

#[test]
fn pulseaudio_is_reached_again() {
    let mut c = started("", None);
    c.begin_round();
    take(&mut c, Happened::Resumed(false));
    take(&mut c, Happened::AudioConnected(false));
    assert_eq!(asks(&c), "ReconnectAudio");
    take(&mut c, Happened::Reconnected(true));
    assert_eq!(asks(&c), "FlushPersist");
    take(&mut c, Happened::Done);
    take(&mut c, Happened::Panel(None));
    assert_eq!(asks(&c), "Paint");
}

#[test]
fn a_failed_attempt_is_not_repeated_at_once() {
    let mut c = started("", None);
    c.begin_round();
    take(&mut c, Happened::Resumed(false));
    take(&mut c, Happened::AudioConnected(false));
    take(&mut c, Happened::Reconnected(false));
    take(&mut c, Happened::Done);
    take(&mut c, Happened::Panel(None));
    assert_eq!(asks(&c), "NextRound");
    c.begin_round();
    take(&mut c, Happened::Resumed(false));
    take(&mut c, Happened::AudioConnected(false));
    assert_eq!(asks(&c), "FlushPersist");
}

#[test]
fn the_microphone_is_seeded_and_polled() {
    let mut c = Controller::new(config(MIC_LOGO), None, false);
    assert_eq!(asks(&c), "QueryMic");
    take(&mut c, Happened::Mic(Some(true)));
    assert_eq!(asks(&c), "Paint");
    take(&mut c, Happened::Done);
    c.begin_round();
    take(&mut c, Happened::Resumed(true));
    assert_eq!(asks(&c), "QueryMic");
    take(&mut c, Happened::Mic(None));
    take(&mut c, Happened::AudioConnected(true));
    assert_eq!(asks(&c), "PollMic");
    take(&mut c, Happened::Mic(Some(false)));
    assert_eq!(asks(&c), "FlushPersist");
    take(&mut c, Happened::Done);
    take(&mut c, Happened::Panel(None));
    assert_eq!(asks(&c), "Paint");
}

#[test]
fn a_command_that_cannot_be_sent_repaints() {
    let mut c = started("[obs]\n[button1]\naction = \"obs-save-replay\"\n", None);
    quiet_until_reading(&mut c);
    let now = c.now();
    let report = c.advance(Happened::Panel(Some(press(0))), now);
    assert_eq!(show(&report.effects), "[Dispatch(SaveReplay)]");
    assert_eq!(report.skipped, vec![ObsCommand::SaveReplay]);
    assert_eq!(asks(&c), "Paint");
}

#[test]
fn a_command_that_is_sent_waits_for_its_outcome() {
    let (commands_tx, mut commands_rx) = tokio::sync::mpsc::channel(4);
    let (events_tx, events_rx) = tokio::sync::mpsc::channel(4);
    let handle = ObsHandle { commands_tx, events_rx };
    let mut c = started("[obs]\n[button1]\naction = \"obs-save-replay\"\n", Some(handle));
    events_tx.try_send(ObsEvent::Connected).unwrap();
    quiet_until_reading(&mut c);
    let now = c.now();
    let report = c.advance(Happened::Panel(Some(press(0))), now);
    assert!(report.skipped.is_empty());
    assert_eq!(commands_rx.try_recv().unwrap(), ObsCommand::SaveReplay);
    assert_eq!(asks(&c), "Paint");
    take(&mut c, Happened::Done);
    quiet_until_reading(&mut c);
    take(&mut c, Happened::Panel(Some(press(0))));
    assert_eq!(asks(&c), "NextRound");
}

#[test]
fn the_work_of_an_event_is_done_within_its_round() {
    let mut c = started(
        "[logo]\nindicator = \"replay\"\n[slider1]\naction = \"volume\"\napp = \"A\"\n\
         [button1]\naction = \"toggle-mute\"\napp = \"mic\"\n",
        None,
    );
    quiet_until_reading(&mut c);
    take(&mut c, Happened::Panel(Some(slider(255))));
    assert_eq!(asks(&c), "Perform");
    take(&mut c, Happened::Worked(Outcome::AppVolumes(Some(vec![true]))));
    assert_eq!(asks(&c), "Perform");
    assert!(!c.expects(&Happened::Worked(Outcome::Volume(true))));
    take(&mut c, Happened::Worked(Outcome::Icon(Some("i".to_string()))));
    assert_eq!(asks(&c), "NextRound");
    quiet_until_reading(&mut c);
    take(&mut c, Happened::Panel(Some(press(0))));
    take(&mut c, Happened::Worked(Outcome::Mute(Some(true))));
    assert_eq!(asks(&c), "NextRound");
}

#[test]
fn paintings_fit_into_reports() {
    let c = Controller::new(config("[rgb]\nmode = \"solid\"\ncolor = \"#112233\"\n"), None, false);
    let now = c.now();
    match c.demand(now) {
        Demand::Paint(packets) => {
            assert_eq!(packets.len(), 4);
            assert!(packets.iter().all(|p| p.len() <= 64));
        }
        other => panic!("unexpected {other:?}"),
    }
}

#[test]
fn the_wait_counts_from_the_beginning_of_an_attempt() {
    let mut c = started("", None);
    let at = Instant::from_millis;
    c.begin_round_at(at(0));
    c.advance(Happened::Resumed(false), at(10_000));
    c.advance(Happened::AudioConnected(false), at(10_000));
    assert_eq!(asks(&c), "ReconnectAudio");
    c.advance(Happened::Reconnected(false), at(13_000));
    c.advance(Happened::Done, at(13_000));
    c.advance(Happened::Panel(None), at(13_000));
    c.begin_round_at(at(13_000));
    c.advance(Happened::Resumed(false), at(13_000));
    c.advance(Happened::AudioConnected(false), at(13_000));
    assert_eq!(asks(&c), "ReconnectAudio");
    c.advance(Happened::Reconnected(false), at(13_000));
    c.advance(Happened::Done, at(13_000));
    c.advance(Happened::Panel(None), at(13_000));
    c.begin_round_at(at(16_999));
    c.advance(Happened::Resumed(false), at(16_999));
    c.advance(Happened::AudioConnected(false), at(16_999));
    assert_eq!(asks(&c), "FlushPersist");
}

#[test]
fn a_flash_without_duration_is_over_in_its_round() {
    let (commands_tx, _commands_rx) = tokio::sync::mpsc::channel(4);
    let (events_tx, events_rx) = tokio::sync::mpsc::channel(4);
    let handle = ObsHandle { commands_tx, events_rx };
    let mut c = started("[obs]\n[obs.colors]\nflash_duration_ms = 0\n", Some(handle));
    let now = c.now();
    let idle = format!("{:?}", Controller::new(config("[obs]\n"), None, false).demand(now));
    events_tx
        .try_send(ObsEvent::CommandFailed(ObsCommand::SaveReplay, "no".to_string()))
        .unwrap();
    quiet_until_reading(&mut c);
    take(&mut c, Happened::Panel(None));
    let now = c.now();
    assert_eq!(format!("{:?}", c.demand(now)), idle);
}
