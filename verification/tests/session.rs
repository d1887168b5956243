//! Sessions with OBS.
use pcp_rust::backoff::Backoff;
use pcp_rust::clock::Instant;
use pcp_rust::config::{parse_config, ObsConfig};
use pcp_rust::obs::{ObsCommand, ObsEvent};
use pcp_rust::session::{
    handle_obs_event, host_is_local, loopback_candidate, password_is_exposed, Canvas, Notice,
    ObsLink, OutputPhase, Reply, Request, Retry, Session,
};

#[test]
fn host_is_local_accepts_loopback_forms() {
    assert!(host_is_local("localhost", false));
    assert!(host_is_local("LOCALHOST", false));
    assert!(host_is_local("Localhost", false));
    assert!(host_is_local("localhost.", false));
    assert!(host_is_local("127.0.0.1", true));
    assert!(host_is_local("127.0.0.2", true));
    assert!(host_is_local("127.1.2.3", true));
    assert!(host_is_local("::1", true));
    assert!(host_is_local("[::1]", true));
    assert_eq!(loopback_candidate("127.0.0.1"), "127.0.0.1");
    assert_eq!(loopback_candidate("::1"), "::1");
    assert_eq!(loopback_candidate("[::1]"), "::1");
}

#[test]
fn host_is_local_rejects_remote_hosts() {
    assert!(!host_is_local("192.168.1.10", false));
    assert!(!host_is_local("10.0.0.5", false));
    assert!(!host_is_local("obs.example.com", false));
    assert!(!host_is_local("example.com", false));
    assert!(!host_is_local("128.0.0.1", false));
}

#[test]
fn hosts_are_stripped_of_dots_and_brackets() {
    assert_eq!(loopback_candidate("127.0.0.1.."), "127.0.0.1");
    assert_eq!(loopback_candidate("[127.0.0.1]."), "127.0.0.1");
    assert_eq!(loopback_candidate("[::1"), "[::1");
    assert_eq!(loopback_candidate("["), "[");
    assert_eq!(loopback_candidate("[]"), "");
    assert_eq!(loopback_candidate("..."), "");
}

fn config(settings: &str) -> ObsConfig {
    parse_config(&format!("[obs]\n{settings}")).unwrap().obs.unwrap()
}

#[test]
fn a_password_is_exposed_on_the_network_only() {
    let remote = config("host = \"obs.example.com\"\npassword = \"x\"\n");
    assert!(password_is_exposed(&remote, false));
    assert!(!password_is_exposed(&remote, true));
    assert!(!password_is_exposed(&config("password = \"x\"\n"), false));
    assert!(!password_is_exposed(&config("host = \"obs.example.com\"\n"), false));
}

fn step(s: &mut Session, request: Request, reply: Reply) -> String {
    assert_eq!(s.request(), request);
    assert!(s.expects(&reply));
    format!("{:?}", s.advance(reply))
}

fn begin(settings: &str) -> Session {
    let (s, event) = Session::new(&config(settings));
    assert!(matches!(event, ObsEvent::Connected));
    s
}

fn serving(settings: &str) -> Session {
    let mut s = begin(settings);
    s.advance(Reply::Done);
    s.advance(Reply::Failed("x".to_string()));
    s.advance(Reply::Failed("x".to_string()));
    assert_eq!(s.request(), Request::Next);
    s
}

#[test]
fn a_session_starts_by_asking() {
    let mut s = begin("");
    assert_eq!(step(&mut s, Request::Subscribe, Reply::Done), "[]");
    assert_eq!(
        step(
            &mut s,
            Request::RecordingStatus,
            Reply::Recording { active: true, paused: true }
        ),
        "[RecordingPaused]"
    );
    assert_eq!(
        step(&mut s, Request::ReplayBufferStatus, Reply::ReplayBuffer { active: false }),
        "[ReplayBufferInactive]"
    );
    assert_eq!(s.request(), Request::Next);
}

#[test]
fn recording_states_are_reported() {
    for (active, paused, report) in [
        (true, false, "[RecordingActive]"),
        (true, true, "[RecordingPaused]"),
        (false, false, "[RecordingStopped]"),
    ] {
        let mut s = begin("");
        s.advance(Reply::Done);
        assert_eq!(format!("{:?}", s.advance(Reply::Recording { active, paused })), report);
    }
}

#[test]
fn the_replay_buffer_is_started_on_demand() {
    let mut s = begin("start_replay_buffer = true\n");
    s.advance(Reply::Done);
    s.advance(Reply::Failed("x".to_string()));
    assert_eq!(
        step(&mut s, Request::ReplayBufferStatus, Reply::ReplayBuffer { active: false }),
        "[]"
    );
    assert_eq!(step(&mut s, Request::StartReplayBuffer, Reply::Done), "[ReplayBufferActive]");
    let mut s = begin("start_replay_buffer = true\n");
    s.advance(Reply::Done);
    s.advance(Reply::Failed("x".to_string()));
    assert_eq!(
        step(&mut s, Request::ReplayBufferStatus, Reply::ReplayBuffer { active: true }),
        "[ReplayBufferActive]"
    );
    assert_eq!(s.request(), Request::Next);
}

const MATCHING: &str = "start_replay_buffer = true\nmatch_canvas_to_display = true\n";

fn canvas(w: u32, h: u32) -> Canvas {
    Canvas { base_width: w, base_height: h, output_width: w, output_height: h }
}

#[test]
fn the_canvas_is_matched_before_the_buffer_starts() {
    let mut s = begin(MATCHING);
    s.advance(Reply::Done);
    s.advance(Reply::Failed("x".to_string()));
    s.advance(Reply::ReplayBuffer { active: false });
    step(&mut s, Request::DetectDisplay, Reply::Display { width: 3840, height: 2160 });
    step(&mut s, Request::VideoSettings, Reply::Video(canvas(1920, 1080)));
    step(&mut s, Request::SetVideoSettings { width: 3840, height: 2160 }, Reply::Done);
    assert_eq!(
        step(&mut s, Request::StartReplayBuffer, Reply::Failed("no".to_string())),
        "[ReplayBufferInactive]"
    );
}

#[test]
fn a_matching_canvas_is_left_alone() {
    let mut s = begin(MATCHING);
    s.advance(Reply::Done);
    s.advance(Reply::Failed("x".to_string()));
    s.advance(Reply::ReplayBuffer { active: false });
    s.advance(Reply::Display { width: 800, height: 600 });
    s.advance(Reply::Video(canvas(800, 600)));
    assert_eq!(s.request(), Request::StartReplayBuffer);
    let odd = Canvas { output_width: 1, ..canvas(800, 600) };
    assert!(!odd.matches_size(800, 600));
}

#[test]
fn a_failed_match_starts_nothing() {
    let mut s = begin(MATCHING);
    s.advance(Reply::Done);
    s.advance(Reply::Failed("x".to_string()));
    s.advance(Reply::ReplayBuffer { active: false });
    assert_eq!(
        step(&mut s, Request::DetectDisplay, Reply::Failed("gone".to_string())),
        "[CanvasMatchFailed(\"detecting monitor resolution: gone\"), ReplayBufferInactive]"
    );
    assert_eq!(s.request(), Request::Next);
}

#[test]
fn commands_get_one_outcome() {
    let mut s = serving("");
    for (command, request) in [
        (ObsCommand::SaveReplay, Request::SaveReplayBuffer),
        (ObsCommand::ToggleRecording, Request::ToggleRecording),
        (ObsCommand::PauseRecording, Request::TogglePause),
        (ObsCommand::SplitRecording, Request::SplitFile),
    ] {
        assert_eq!(step(&mut s, Request::Next, Reply::Command(command)), "[]");
        assert_eq!(
            step(&mut s, request, Reply::Done),
            format!("[CommandSucceeded({command:?})]")
        );
        s.advance(Reply::Command(command));
        assert_eq!(
            step(&mut s, request, Reply::Failed("m".to_string())),
            format!("[CommandFailed({command:?}, \"m\")]")
        );
    }
    assert_eq!(ObsCommand::SaveReplay.label(), "save replay buffer");
    assert_eq!(ObsCommand::ToggleRecording.label(), "toggle recording");
    assert_eq!(ObsCommand::PauseRecording.label(), "pause/resume recording");
    assert_eq!(ObsCommand::SplitRecording.label(), "split recording file");
}

#[test]
fn recording_starts_on_a_matched_canvas() {
    let mut s = serving("match_canvas_to_display = true\n");
    s.advance(Reply::Command(ObsCommand::ToggleRecording));
    step(&mut s, Request::RecordingStatus, Reply::Recording { active: false, paused: false });
    step(&mut s, Request::DetectDisplay, Reply::Display { width: 8, height: 6 });
    step(&mut s, Request::VideoSettings, Reply::Video(canvas(8, 6)));
    assert_eq!(
        step(&mut s, Request::StartRecording, Reply::Done),
        "[CommandSucceeded(ToggleRecording)]"
    );
    s.advance(Reply::Command(ObsCommand::ToggleRecording));
    step(&mut s, Request::RecordingStatus, Reply::Recording { active: true, paused: false });
    assert_eq!(
        step(&mut s, Request::StopRecording, Reply::Done),
        "[CommandSucceeded(ToggleRecording)]"
    );
    s.advance(Reply::Command(ObsCommand::ToggleRecording));
    s.advance(Reply::Recording { active: false, paused: false });
    s.advance(Reply::Display { width: 8, height: 6 });
    assert_eq!(
        step(&mut s, Request::VideoSettings, Reply::Failed("r".to_string())),
        "[CommandFailed(ToggleRecording, \"reading OBS video settings: r\")]"
    );
    s.advance(Reply::Command(ObsCommand::ToggleRecording));
    s.advance(Reply::Recording { active: false, paused: false });
    s.advance(Reply::Display { width: 8, height: 6 });
    s.advance(Reply::Video(canvas(1, 1)));
    assert_eq!(
        step(
            &mut s,
            Request::SetVideoSettings { width: 8, height: 6 },
            Reply::Failed("w".to_string())
        ),
        "[CommandFailed(ToggleRecording, \"setting OBS video settings: w\")]"
    );
    assert_eq!(s.request(), Request::Next);
}

#[test]
fn sessions_end_closed_or_lost() {
    let mut s = serving("");
    assert_eq!(step(&mut s, Request::Next, Reply::CommandsClosed), "[]");
    assert_eq!(s.request(), Request::Finish);
    assert_eq!(s.lost(), None);
    assert!(!s.expects(&Reply::Done));
    let mut s = serving("");
    assert_eq!(step(&mut s, Request::Next, Reply::NoticesEnded), "[Disconnected]");
    assert_eq!(s.lost().as_deref(), Some("event stream ended"));
    let mut s = begin("");
    assert_eq!(
        step(&mut s, Request::Subscribe, Reply::Failed("refused".to_string())),
        "[Disconnected]"
    );
    assert_eq!(s.lost().as_deref(), Some("refused"));
}

#[test]
fn notices_are_reported() {
    let record = |active, phase| {
        format!("{:?}", handle_obs_event(Notice::Recording { active, phase }))
    };
    assert_eq!(record(true, OutputPhase::Started), "Some(RecordingActive)");
    assert_eq!(record(true, OutputPhase::Stopped), "Some(RecordingStopped)");
    assert_eq!(record(false, OutputPhase::Paused), "Some(RecordingPaused)");
    assert_eq!(record(false, OutputPhase::Resumed), "Some(RecordingResumed)");
    assert_eq!(record(true, OutputPhase::Other), "Some(RecordingActive)");
    assert_eq!(record(false, OutputPhase::Other), "Some(RecordingStopped)");
    assert!(handle_obs_event(Notice::Other).is_none());
    let mut s = serving("");
    assert_eq!(
        step(&mut s, Request::Next, Reply::Noticed(Notice::ReplayBuffer { active: true })),
        "[ReplayBufferActive]"
    );
    assert_eq!(step(&mut s, Request::Next, Reply::Noticed(Notice::Other)), "[]");
}

#[test]
fn waits_double_up_to_the_ceiling() {
    let mut b = Backoff::new(2, 30);
    let waits: Vec<u64> = (0..7).map(|_| b.wait()).collect();
    assert_eq!(waits, vec![2, 4, 8, 16, 30, 30, 30]);
    b.reset();
    assert_eq!(b.wait(), 2);
}

#[test]
fn short_sessions_count_as_failures() {
    let t0 = Instant::from_millis(0);
    let mut link = ObsLink::new();
    assert_eq!(link.connect_failed(), Retry::AfterSecs(2));
    assert_eq!(link.session_lost(t0, Instant::from_millis(29_999)), Retry::AfterSecs(4));
    assert_eq!(link.session_lost(t0, Instant::from_millis(30_000)), Retry::AtOnce);
    assert_eq!(link.connect_failed(), Retry::AfterSecs(2));
}
