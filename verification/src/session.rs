//! A session with OBS: what to ask of it next and what to report, from the
//! replies so far.
use vstd::prelude::*;
use vstd::string::*;

use crate::backoff::{Backoff, BackoffView};
use crate::clock::Instant;
use crate::config::{ObsConfig, ObsConfigView};
use crate::obs::{reports, ObsCommand, ObsEvent, ObsEventView};
use crate::runtime::{ObsState, RuntimeView};
use crate::text::{eq_ignore_ascii_case, same_ignoring_ascii_case};

verus! {

/// The shortest wait before a new connection, in seconds.
pub const BACKOFF_INITIAL_SECS: u64 = 2;

/// The longest wait before a new connection, in seconds.
pub const BACKOFF_MAX_SECS: u64 = 30;

/// How long a session has to last to count as stable, in milliseconds.
pub const STABLE_SESSION_MS: u64 = 30_000;

/// How far an output of OBS has come.
#[derive(Debug, Clone, Copy, PartialEq, Eq, Structural)]
pub enum OutputPhase {
    Started,
    Stopped,
    Paused,
    Resumed,
    /// Any other transition.
    Other,
}

/// What OBS tells of its own accord.
#[derive(Debug, Clone, Copy, PartialEq, Eq, Structural)]
pub enum Notice {
    Recording { active: bool, phase: OutputPhase },
    ReplayBuffer { active: bool },
    /// Anything that does not concern the panel.
    Other,
}

/// What a notice of OBS is reported as.
pub open spec fn report_of(notice: Notice) -> Option<ObsEventView> {
    match notice {
        Notice::Recording { active, phase } => Some(
            match phase {
                OutputPhase::Started => ObsEventView::RecordingActive,
                OutputPhase::Stopped => ObsEventView::RecordingStopped,
                OutputPhase::Paused => ObsEventView::RecordingPaused,
                OutputPhase::Resumed => ObsEventView::RecordingResumed,
                OutputPhase::Other => if active {
                    ObsEventView::RecordingActive
                } else {
                    ObsEventView::RecordingStopped
                },
            },
        ),
        Notice::ReplayBuffer { active } => Some(buffer_report(active)),
        Notice::Other => None,
    }
}

/// How the state of the replay buffer is reported.
pub open spec fn buffer_report(active: bool) -> ObsEventView {
    if active {
        ObsEventView::ReplayBufferActive
    } else {
        ObsEventView::ReplayBufferInactive
    }
}

/// How the state of the recording is reported.
pub open spec fn recording_report(active: bool, paused: bool) -> ObsEventView {
    if !active {
        ObsEventView::RecordingStopped
    } else if paused {
        ObsEventView::RecordingPaused
    } else {
        ObsEventView::RecordingActive
    }
}

fn buffer_event(active: bool) -> (r: ObsEvent)
    ensures
        r@ == buffer_report(active),
{
    if active {
        ObsEvent::ReplayBufferActive
    } else {
        ObsEvent::ReplayBufferInactive
    }
}

fn recording_event(active: bool, paused: bool) -> (r: ObsEvent)
    ensures
        r@ == recording_report(active, paused),
{
    if !active {
        ObsEvent::RecordingStopped
    } else if paused {
        ObsEvent::RecordingPaused
    } else {
        ObsEvent::RecordingActive
    }
}

/// What a notice of OBS is reported as, if it is reported at all.
pub fn handle_obs_event(notice: Notice) -> (r: Option<ObsEvent>)
    ensures
        match r {
            Some(e) => report_of(notice) == Some(e@),
            None => report_of(notice) is None,
        },
{
    match notice {
        Notice::Recording { active, phase } => Some(
            match phase {
                OutputPhase::Started => ObsEvent::RecordingActive,
                OutputPhase::Stopped => ObsEvent::RecordingStopped,
                OutputPhase::Paused => ObsEvent::RecordingPaused,
                OutputPhase::Resumed => ObsEvent::RecordingResumed,
                OutputPhase::Other => recording_event(active, false),
            },
        ),
        Notice::ReplayBuffer { active } => Some(buffer_event(active)),
        Notice::Other => None,
    }
}

/// The resolutions of OBS.
#[derive(Debug, Clone, Copy, PartialEq, Eq, Structural)]
pub struct Canvas {
    pub base_width: u32,
    pub base_height: u32,
    pub output_width: u32,
    pub output_height: u32,
}

impl Canvas {
    /// Whether both the base and the output have the given size.
    pub open spec fn has_size(self, width: u32, height: u32) -> bool {
        &&& self.base_width == width
        &&& self.base_height == height
        &&& self.output_width == width
        &&& self.output_height == height
    }

    /// Whether both the base and the output have the given size.
    pub fn matches_size(&self, width: u32, height: u32) -> (r: bool)
        ensures
            r == self.has_size(width, height),
    {
        self.base_width == width && self.base_height == height && self.output_width == width
            && self.output_height == height
    }
}

/// Which output waits for the canvas.
#[derive(Debug, Clone, Copy, PartialEq, Eq, Structural)]
pub enum Output {
    ReplayBuffer,
    Recording,
}

/// What a session waits for.
#[derive(Debug, Clone, Copy, PartialEq, Eq, Structural)]
pub enum Stage {
    /// The subscription to the notices of OBS. It comes before anything else,
    /// so that no notice is lost.
    Subscribing,
    QueryingRecording,
    QueryingBuffer,
    /// The size of the monitor.
    Detecting(Output),
    /// The resolutions of OBS, to be compared with the size of the monitor.
    Reading(Output, u32, u32),
    /// The change of the resolutions of OBS to the size of the monitor.
    Writing(Output, u32, u32),
    StartingBuffer,
    /// The next command or notice.
    Serving,
    /// A command that is a single request.
    Commanding(ObsCommand),
    /// The state of the recording, for a command to toggle it.
    QueryingToggle,
    StoppingRecording,
    StartingRecording,
    /// The commands have ended.
    Closed,
    /// The connection is lost.
    Lost,
}

/// What a session asks for.
#[derive(Debug, Clone, Copy, PartialEq, Eq, Structural)]
pub enum Request {
    Subscribe,
    RecordingStatus,
    ReplayBufferStatus,
    DetectDisplay,
    VideoSettings,
    /// Set the base and the output to this size.
    SetVideoSettings { width: u32, height: u32 },
    StartReplayBuffer,
    /// Wait for a command or a notice, a command first where both are there.
    Next,
    SaveReplayBuffer,
    ToggleRecording,
    TogglePause,
    SplitFile,
    StopRecording,
    StartRecording,
    /// Nothing: the session is over.
    Finish,
}

/// The reply to a request.
#[derive(Debug)]
pub enum Reply {
    Done,
    /// The request failed, and why.
    Failed(String),
    Recording { active: bool, paused: bool },
    ReplayBuffer { active: bool },
    Display { width: u32, height: u32 },
    Video(Canvas),
    Command(ObsCommand),
    /// No command will come any more.
    CommandsClosed,
    Noticed(Notice),
    /// No notice will come any more.
    NoticesEnded,
}

impl Stage {
    /// The request of a stage.
    pub open spec fn asks(self) -> Request {
        match self {
            Stage::Subscribing => Request::Subscribe,
            Stage::QueryingRecording => Request::RecordingStatus,
            Stage::QueryingBuffer => Request::ReplayBufferStatus,
            Stage::Detecting(_) => Request::DetectDisplay,
            Stage::Reading(_, _, _) => Request::VideoSettings,
            Stage::Writing(_, width, height) => Request::SetVideoSettings { width, height },
            Stage::StartingBuffer => Request::StartReplayBuffer,
            Stage::Serving => Request::Next,
            Stage::Commanding(c) => match c {
                ObsCommand::SaveReplay => Request::SaveReplayBuffer,
                ObsCommand::ToggleRecording => Request::ToggleRecording,
                ObsCommand::PauseRecording => Request::TogglePause,
                ObsCommand::SplitRecording => Request::SplitFile,
            },
            Stage::QueryingToggle => Request::RecordingStatus,
            Stage::StoppingRecording => Request::StopRecording,
            Stage::StartingRecording => Request::StartRecording,
            Stage::Closed => Request::Finish,
            Stage::Lost => Request::Finish,
        }
    }

    /// The stage in which an output is started.
    pub open spec fn start_of(output: Output) -> Stage {
        match output {
            Output::ReplayBuffer => Stage::StartingBuffer,
            Output::Recording => Stage::StartingRecording,
        }
    }

    /// The command that is being carried out.
    pub open spec fn pending(self) -> Option<ObsCommand> {
        match self {
            Stage::Commanding(c) => Some(c),
            Stage::QueryingToggle => Some(ObsCommand::ToggleRecording),
            Stage::StoppingRecording => Some(ObsCommand::ToggleRecording),
            Stage::StartingRecording => Some(ObsCommand::ToggleRecording),
            Stage::Detecting(Output::Recording) => Some(ObsCommand::ToggleRecording),
            Stage::Reading(Output::Recording, _, _) => Some(ObsCommand::ToggleRecording),
            Stage::Writing(Output::Recording, _, _) => Some(ObsCommand::ToggleRecording),
            _ => None,
        }
    }

    /// How many replies may come before the session serves or is over.
    pub open spec fn distance(self) -> nat {
        match self {
            Stage::Subscribing => 7,
            Stage::QueryingRecording => 6,
            Stage::QueryingBuffer => 5,
            Stage::QueryingToggle => 5,
            Stage::Detecting(_) => 4,
            Stage::Reading(_, _, _) => 3,
            Stage::Writing(_, _, _) => 2,
            Stage::StartingBuffer => 1,
            Stage::Commanding(_) => 1,
            Stage::StoppingRecording => 1,
            Stage::StartingRecording => 1,
            Stage::Serving => 0,
            Stage::Closed => 0,
            Stage::Lost => 0,
        }
    }
}

/// Whether a reply is one that a request can get.
pub open spec fn answers(reply: Reply, request: Request) -> bool {
    match request {
        Request::Next => match reply {
            Reply::Command(_) => true,
            Reply::CommandsClosed => true,
            Reply::Noticed(_) => true,
            Reply::NoticesEnded => true,
            _ => false,
        },
        Request::Finish => false,
        _ => match reply {
            Reply::Failed(_) => true,
            Reply::Recording { .. } => request == Request::RecordingStatus,
            Reply::ReplayBuffer { .. } => request == Request::ReplayBufferStatus,
            Reply::Display { .. } => request == Request::DetectDisplay,
            Reply::Video(_) => request == Request::VideoSettings,
            Reply::Done => {
                &&& request != Request::RecordingStatus
                &&& request != Request::ReplayBufferStatus
                &&& request != Request::DetectDisplay
                &&& request != Request::VideoSettings
            },
            _ => false,
        },
    }
}

/// The content of a [`Session`].
pub struct SessionView {
    pub start_replay_buffer: bool,
    pub match_canvas: bool,
    pub stage: Stage,
    /// Why the connection is lost.
    pub reason: Seq<char>,
}

/// A session after a reply, and what it reports.
pub struct Turn {
    pub session: SessionView,
    pub reports: Seq<ObsEventView>,
}

impl SessionView {
    /// A session that has just been connected.
    pub open spec fn begin(config: ObsConfigView) -> SessionView {
        SessionView {
            start_replay_buffer: config.start_replay_buffer,
            match_canvas: config.match_canvas_to_display,
            stage: Stage::Subscribing,
            reason: Seq::empty(),
        }
    }

    /// Goes on to a stage with nothing to report.
    pub open spec fn goes_to(self, stage: Stage) -> Turn {
        Turn { session: SessionView { stage, ..self }, reports: Seq::empty() }
    }

    /// Goes on to a stage with something to report.
    pub open spec fn says(self, stage: Stage, report: ObsEventView) -> Turn {
        Turn { session: SessionView { stage, ..self }, reports: seq![report] }
    }

    /// The connection is lost.
    pub open spec fn loses(self, reason: Seq<char>) -> Turn {
        Turn {
            session: SessionView { stage: Stage::Lost, reason, ..self },
            reports: seq![ObsEventView::Disconnected],
        }
    }

    /// The canvas could not be matched, so the output is not started.
    pub open spec fn canvas_fails(self, output: Output, message: Seq<char>) -> Turn {
        match output {
            Output::ReplayBuffer => Turn {
                session: SessionView { stage: Stage::Serving, ..self },
                reports: seq![
                    ObsEventView::CanvasMatchFailed(message),
                    ObsEventView::ReplayBufferInactive,
                ],
            },
            Output::Recording => self.says(
                Stage::Serving,
                ObsEventView::CommandFailed(ObsCommand::ToggleRecording, message),
            ),
        }
    }

    /// The outcome of the last request of a command.
    pub open spec fn finishes(self, command: ObsCommand, reply: Reply) -> Turn {
        match reply {
            Reply::Failed(m) => self.says(
                Stage::Serving,
                ObsEventView::CommandFailed(command, m@),
            ),
            _ => self.says(Stage::Serving, ObsEventView::CommandSucceeded(command)),
        }
    }

    /// The session serves.
    pub open spec fn serves(self, reply: Reply) -> Turn {
        match reply {
            Reply::Command(c) => if c == ObsCommand::ToggleRecording && self.match_canvas {
                self.goes_to(Stage::QueryingToggle)
            } else {
                self.goes_to(Stage::Commanding(c))
            },
            Reply::CommandsClosed => self.goes_to(Stage::Closed),
            Reply::Noticed(n) => match report_of(n) {
                Some(report) => self.says(Stage::Serving, report),
                None => self.goes_to(Stage::Serving),
            },
            _ => self.loses("event stream ended"@),
        }
    }

    /// The session after a reply to the request of its stage.
    pub open spec fn after(self, reply: Reply) -> Turn {
        match self.stage {
            Stage::Subscribing => match reply {
                Reply::Failed(m) => self.loses(m@),
                _ => self.goes_to(Stage::QueryingRecording),
            },
            Stage::QueryingRecording => match reply {
                Reply::Recording { active, paused } => self.says(
                    Stage::QueryingBuffer,
                    recording_report(active, paused),
                ),
                _ => self.goes_to(Stage::QueryingBuffer),
            },
            Stage::QueryingBuffer => match reply {
                Reply::ReplayBuffer { active } => if self.start_replay_buffer && !active {
                    if self.match_canvas {
                        self.goes_to(Stage::Detecting(Output::ReplayBuffer))
                    } else {
                        self.goes_to(Stage::StartingBuffer)
                    }
                } else {
                    self.says(Stage::Serving, buffer_report(active))
                },
                _ => self.goes_to(Stage::Serving),
            },
            Stage::Detecting(output) => match reply {
                Reply::Display { width, height } => self.goes_to(
                    Stage::Reading(output, width, height),
                ),
                Reply::Failed(m) => self.canvas_fails(
                    output,
                    "detecting monitor resolution: "@ + m@,
                ),
                _ => self.goes_to(self.stage),
            },
            Stage::Reading(output, width, height) => match reply {
                Reply::Video(canvas) => if canvas.has_size(width, height) {
                    self.goes_to(Stage::start_of(output))
                } else {
                    self.goes_to(Stage::Writing(output, width, height))
                },
                Reply::Failed(m) => self.canvas_fails(
                    output,
                    "reading OBS video settings: "@ + m@,
                ),
                _ => self.goes_to(self.stage),
            },
            Stage::Writing(output, width, height) => match reply {
                Reply::Failed(m) => self.canvas_fails(
                    output,
                    "setting OBS video settings: "@ + m@,
                ),
                _ => self.goes_to(Stage::start_of(output)),
            },
            Stage::StartingBuffer => self.says(Stage::Serving, buffer_report(reply is Done)),
            Stage::Serving => self.serves(reply),
            Stage::Commanding(c) => self.finishes(c, reply),
            Stage::QueryingToggle => match reply {
                Reply::Recording { active, .. } => if active {
                    self.goes_to(Stage::StoppingRecording)
                } else {
                    self.goes_to(Stage::Detecting(Output::Recording))
                },
                _ => self.finishes(ObsCommand::ToggleRecording, reply),
            },
            Stage::StoppingRecording => self.finishes(ObsCommand::ToggleRecording, reply),
            Stage::StartingRecording => self.finishes(ObsCommand::ToggleRecording, reply),
            Stage::Closed => self.goes_to(Stage::Closed),
            Stage::Lost => self.goes_to(Stage::Lost),
        }
    }
}

/// A session with OBS.
#[derive(Debug)]
pub struct Session {
    start_replay_buffer: bool,
    match_canvas: bool,
    stage: Stage,
    reason: String,
}

impl View for Session {
    type V = SessionView;

    closed spec fn view(&self) -> SessionView {
        SessionView {
            start_replay_buffer: self.start_replay_buffer,
            match_canvas: self.match_canvas,
            stage: self.stage,
            reason: self.reason@,
        }
    }
}

fn prefixed(intro: &str, m: String) -> (r: String)
    ensures
        r@ == intro@ + m@,
{
    let mut s = intro.to_owned();
    s.append(m.as_str());
    s
}

fn one_event(e: ObsEvent) -> (r: Vec<ObsEvent>)
    ensures
        reports(r@) == seq![e@],
{
    let mut out: Vec<ObsEvent> = Vec::new();
    out.push(e);
    assert(reports(out@) =~= seq![e@]);
    out
}

fn no_events() -> (r: Vec<ObsEvent>)
    ensures
        reports(r@) == Seq::<ObsEventView>::empty(),
{
    let out: Vec<ObsEvent> = Vec::new();
    assert(reports(out@) =~= Seq::<ObsEventView>::empty());
    out
}

impl Session {
    /// A session on a new connection, and the report of the connection.
    pub fn new(config: &ObsConfig) -> (r: (Session, ObsEvent))
        ensures
            r.0@ == SessionView::begin(config@),
            r.1@ == ObsEventView::Connected,
    {
        let reason = String::new();
        assert(reason@ =~= Seq::<char>::empty());
        (
            Session {
                start_replay_buffer: config.start_replay_buffer,
                match_canvas: config.match_canvas_to_display,
                stage: Stage::Subscribing,
                reason,
            },
            ObsEvent::Connected,
        )
    }

    /// What the session asks for.
    pub fn request(&self) -> (r: Request)
        ensures
            r == self@.stage.asks(),
    {
        match self.stage {
            Stage::Subscribing => Request::Subscribe,
            Stage::QueryingRecording => Request::RecordingStatus,
            Stage::QueryingBuffer => Request::ReplayBufferStatus,
            Stage::Detecting(_) => Request::DetectDisplay,
            Stage::Reading(_, _, _) => Request::VideoSettings,
            Stage::Writing(_, width, height) => Request::SetVideoSettings { width, height },
            Stage::StartingBuffer => Request::StartReplayBuffer,
            Stage::Serving => Request::Next,
            Stage::Commanding(c) => match c {
                ObsCommand::SaveReplay => Request::SaveReplayBuffer,
                ObsCommand::ToggleRecording => Request::ToggleRecording,
                ObsCommand::PauseRecording => Request::TogglePause,
                ObsCommand::SplitRecording => Request::SplitFile,
            },
            Stage::QueryingToggle => Request::RecordingStatus,
            Stage::StoppingRecording => Request::StopRecording,
            Stage::StartingRecording => Request::StartRecording,
            Stage::Closed => Request::Finish,
            Stage::Lost => Request::Finish,
        }
    }

    /// Why the connection is lost, if it is.
    pub fn lost(&self) -> (r: Option<String>)
        ensures
            match r {
                Some(m) => self@.stage == Stage::Lost && m@ == self@.reason,
                None => self@.stage != Stage::Lost,
            },
    {
        match self.stage {
            Stage::Lost => Some(self.reason.clone()),
            _ => None,
        }
    }

    /// Whether a reply is one that the present request can get.
    pub fn expects(&self, reply: &Reply) -> (r: bool)
        ensures
            r == answers(*reply, self@.stage.asks()),
    {
        let request = self.request();
        match reply {
            Reply::Failed(_) => !matches!(request, Request::Next | Request::Finish),
            Reply::Recording { .. } => matches!(request, Request::RecordingStatus),
            Reply::ReplayBuffer { .. } => matches!(request, Request::ReplayBufferStatus),
            Reply::Display { .. } => matches!(request, Request::DetectDisplay),
            Reply::Video(_) => matches!(request, Request::VideoSettings),
            Reply::Done => !matches!(
                request,
                Request::Next | Request::Finish | Request::RecordingStatus
                | Request::ReplayBufferStatus | Request::DetectDisplay | Request::VideoSettings
            ),
            Reply::Command(_)
            | Reply::CommandsClosed
            | Reply::Noticed(_)
            | Reply::NoticesEnded => matches!(request, Request::Next),
        }
    }

    fn lose(&mut self, reason: String) -> (events: Vec<ObsEvent>)
        ensures
            (Turn { session: final(self)@, reports: reports(events@) }) == old(self)@.loses(
                reason@,
            ),
    {
        self.stage = Stage::Lost;
        self.reason = reason;
        one_event(ObsEvent::Disconnected)
    }

    fn fail_canvas(&mut self, output: Output, message: String) -> (events: Vec<ObsEvent>)
        ensures
            (Turn { session: final(self)@, reports: reports(events@) }) == old(self)@.canvas_fails(
                output,
                message@,
            ),
    {
        self.stage = Stage::Serving;
        match output {
            Output::ReplayBuffer => {
                let ghost m = message@;
                let mut events: Vec<ObsEvent> = Vec::new();
                events.push(ObsEvent::CanvasMatchFailed(message));
                events.push(ObsEvent::ReplayBufferInactive);
                proof {
                    assert(reports(events@) =~= seq![
                        ObsEventView::CanvasMatchFailed(m),
                        ObsEventView::ReplayBufferInactive,
                    ]);
                }
                events
            },
            Output::Recording => one_event(
                ObsEvent::CommandFailed(ObsCommand::ToggleRecording, message),
            ),
        }
    }

    fn finish_command(&mut self, command: ObsCommand, reply: Reply) -> (events: Vec<ObsEvent>)
        ensures
            (Turn { session: final(self)@, reports: reports(events@) }) == old(self)@.finishes(
                command,
                reply,
            ),
    {
        self.stage = Stage::Serving;
        match reply {
            Reply::Failed(m) => one_event(ObsEvent::CommandFailed(command, m)),
            _ => one_event(ObsEvent::CommandSucceeded(command)),
        }
    }

    fn start_output(&mut self, output: Output) -> (events: Vec<ObsEvent>)
        ensures
            (Turn { session: final(self)@, reports: reports(events@) }) == old(self)@.goes_to(
                Stage::start_of(output),
            ),
    {
        match output {
            Output::ReplayBuffer => self.go(Stage::StartingBuffer),
            Output::Recording => self.go(Stage::StartingRecording),
        }
    }

    fn go(&mut self, stage: Stage) -> (events: Vec<ObsEvent>)
        ensures
            (Turn { session: final(self)@, reports: reports(events@) }) == old(self)@.goes_to(
                stage,
            ),
    {
        self.stage = stage;
        no_events()
    }

    fn say(&mut self, stage: Stage, event: ObsEvent) -> (events: Vec<ObsEvent>)
        ensures
            (Turn { session: final(self)@, reports: reports(events@) }) == old(self)@.says(
                stage,
                event@,
            ),
    {
        self.stage = stage;
        one_event(event)
    }

    fn serve(&mut self, reply: Reply) -> (events: Vec<ObsEvent>)
        ensures
            (Turn { session: final(self)@, reports: reports(events@) }) == old(self)@.serves(
                reply,
            ),
    {
        match reply {
            Reply::Command(c) => if matches!(c, ObsCommand::ToggleRecording) && self.match_canvas {
                self.go(Stage::QueryingToggle)
            } else {
                self.go(Stage::Commanding(c))
            },
            Reply::CommandsClosed => self.go(Stage::Closed),
            Reply::Noticed(n) => match handle_obs_event(n) {
                Some(event) => self.say(Stage::Serving, event),
                None => self.go(Stage::Serving),
            },
            _ => self.lose("event stream ended".to_owned()),
        }
    }

    /// Takes the reply to the present request. The result is what to report,
    /// in order.
    pub fn advance(&mut self, reply: Reply) -> (events: Vec<ObsEvent>)
        requires
            answers(reply, old(self)@.stage.asks()),
        ensures
            (Turn { session: final(self)@, reports: reports(events@) }) == old(self)@.after(reply),
    {
        match self.stage {
            Stage::Subscribing => match reply {
                Reply::Failed(m) => self.lose(m),
                _ => self.go(Stage::QueryingRecording),
            },
            Stage::QueryingRecording => match reply {
                Reply::Recording { active, paused } => self.say(
                    Stage::QueryingBuffer,
                    recording_event(active, paused),
                ),
                _ => self.go(Stage::QueryingBuffer),
            },
            Stage::QueryingBuffer => match reply {
                Reply::ReplayBuffer { active } => if self.start_replay_buffer && !active {
                    if self.match_canvas {
                        self.go(Stage::Detecting(Output::ReplayBuffer))
                    } else {
                        self.go(Stage::StartingBuffer)
                    }
                } else {
                    self.say(Stage::Serving, buffer_event(active))
                },
                _ => self.go(Stage::Serving),
            },
            Stage::Detecting(output) => match reply {
                Reply::Display { width, height } => self.go(Stage::Reading(output, width, height)),
                Reply::Failed(m) => self.fail_canvas(
                    output,
                    prefixed("detecting monitor resolution: ", m),
                ),
                _ => no_events(),
            },
            Stage::Reading(output, width, height) => match reply {
                Reply::Video(canvas) => if canvas.matches_size(width, height) {
                    self.start_output(output)
                } else {
                    self.go(Stage::Writing(output, width, height))
                },
                Reply::Failed(m) => self.fail_canvas(
                    output,
                    prefixed("reading OBS video settings: ", m),
                ),
                _ => no_events(),
            },
            Stage::Writing(output, _, _) => match reply {
                Reply::Failed(m) => self.fail_canvas(
                    output,
                    prefixed("setting OBS video settings: ", m),
                ),
                _ => self.start_output(output),
            },
            Stage::StartingBuffer => self.say(
                Stage::Serving,
                buffer_event(matches!(reply, Reply::Done)),
            ),
            Stage::Serving => self.serve(reply),
            Stage::Commanding(c) => self.finish_command(c, reply),
            Stage::QueryingToggle => match reply {
                Reply::Recording { active, .. } => if active {
                    self.go(Stage::StoppingRecording)
                } else {
                    self.go(Stage::Detecting(Output::Recording))
                },
                _ => self.finish_command(ObsCommand::ToggleRecording, reply),
            },
            Stage::StoppingRecording => self.finish_command(ObsCommand::ToggleRecording, reply),
            Stage::StartingRecording => self.finish_command(ObsCommand::ToggleRecording, reply),
            Stage::Closed | Stage::Lost => no_events(),
        }
    }
}

// ---------------------------------------------------------------------------
// Connections
// ---------------------------------------------------------------------------

/// When to connect again.
#[derive(Debug, Clone, Copy, PartialEq, Eq, Structural)]
pub enum Retry {
    AtOnce,
    AfterSecs(u64),
}

/// The row of connections to OBS.
#[derive(Debug)]
pub struct ObsLink {
    backoff: Backoff,
}

impl View for ObsLink {
    type V = BackoffView;

    closed spec fn view(&self) -> BackoffView {
        self.backoff@
    }
}

impl ObsLink {
    /// Before the first connection.
    pub fn new() -> (r: ObsLink)
        ensures
            r@ == BackoffView::fresh(BACKOFF_INITIAL_SECS as nat, BACKOFF_MAX_SECS as nat),
    {
        ObsLink { backoff: Backoff::new(BACKOFF_INITIAL_SECS, BACKOFF_MAX_SECS) }
    }

    /// When to try again after a connection failed.
    pub fn connect_failed(&mut self) -> (r: Retry)
        ensures
            r == Retry::AfterSecs(old(self)@.next as u64),
            final(self)@ == old(self)@.doubled(),
    {
        Retry::AfterSecs(self.backoff.wait())
    }

    /// When to connect again after a session was lost. A session that did not
    /// last counts as a failed attempt.
    pub fn session_lost(&mut self, started: Instant, ended: Instant) -> (r: Retry)
        ensures
            ended.at_least_after(started, STABLE_SESSION_MS as int) ==> {
                &&& r == Retry::AtOnce
                &&& final(self)@ == old(self)@.restarted()
            },
            !ended.at_least_after(started, STABLE_SESSION_MS as int) ==> {
                &&& r == Retry::AfterSecs(old(self)@.next as u64)
                &&& final(self)@ == old(self)@.doubled()
            },
    {
        if ended.reached(started, STABLE_SESSION_MS) {
            self.backoff.reset();
            Retry::AtOnce
        } else {
            Retry::AfterSecs(self.backoff.wait())
        }
    }
}

/// A host name without the dots at its end.
pub open spec fn without_dots(host: Seq<char>) -> Seq<char>
    decreases host.len(),
{
    if host.len() > 0 && host.last() == '.' {
        without_dots(host.drop_last())
    } else {
        host
    }
}

/// What is inside square brackets, the whole where there are none.
pub open spec fn without_brackets(host: Seq<char>) -> Seq<char> {
    if host.len() >= 2 && host[0] == '[' && host.last() == ']' {
        host.subrange(1, host.len() - 1)
    } else {
        host
    }
}

/// The part of a host that can be the address of a loopback interface.
pub fn loopback_candidate(host: &str) -> (r: &str)
    ensures
        r@ == without_brackets(without_dots(host@)),
{
    let mut end: usize = host.unicode_len();
    assert(host@.subrange(0, end as int) =~= host@);
    while end > 0 && host.get_char(end - 1) == '.'
        invariant
            end <= host@.len(),
            without_dots(host@.subrange(0, end as int)) == without_dots(host@),
        decreases end,
    {
        proof {
            assert(host@.subrange(0, end as int).drop_last() =~= host@.subrange(0, end - 1));
        }
        end = end - 1;
    }
    let ghost dotless = host@.subrange(0, end as int);
    assert(without_dots(host@) == dotless);
    let h = host.substring_char(0, end);
    if end >= 2 && h.get_char(0) == '[' && h.get_char(end - 1) == ']' {
        h.substring_char(1, end - 1)
    } else {
        h
    }
}

/// Whether the host of OBS is this machine, where `loopback_address` says
/// whether [`loopback_candidate`] is the address of a loopback interface.
pub fn host_is_local(host: &str, loopback_address: bool) -> (r: bool)
    ensures
        r == (loopback_address || same_ignoring_ascii_case(
            without_brackets(without_dots(host@)),
            "localhost"@,
        )),
{
    eq_ignore_ascii_case(loopback_candidate(host), "localhost") || loopback_address
}

/// Whether a password would cross the network in clear: obs-websocket does
/// not encrypt.
pub fn password_is_exposed(config: &ObsConfig, loopback_address: bool) -> (r: bool)
    ensures
        r == (config@.password is Some && !loopback_address && !same_ignoring_ascii_case(
            without_brackets(without_dots(config@.host)),
            "localhost"@,
        )),
{
    config.password.is_some() && !host_is_local(config.host.as_str(), loopback_address)
}

// ---------------------------------------------------------------------------
// Laws
// ---------------------------------------------------------------------------

/// An output is only started where it was asked for, and, where the canvas is
/// to follow the monitor, only on the reply that shows OBS at the size of the
/// monitor.
pub proof fn law_outputs_start_on_a_matched_canvas(s: SessionView, reply: Reply, output: Output)
    requires
        answers(reply, s.stage.asks()),
        s.after(reply).session.stage == Stage::start_of(output),
    ensures
        s.match_canvas || s.stage is Reading || s.stage is Writing ==> {
            ||| match (s.stage, reply) {
                (Stage::Reading(o, w, h), Reply::Video(canvas)) => o == output && canvas.has_size(
                    w,
                    h,
                ),
                _ => false,
            }
            ||| match s.stage {
                Stage::Writing(o, _, _) => o == output && reply is Done,
                _ => false,
            }
        },
        !(s.match_canvas || s.stage is Reading || s.stage is Writing) ==> {
            &&& output == Output::ReplayBuffer
            &&& s.stage == Stage::QueryingBuffer
            &&& s.start_replay_buffer
            &&& reply == (Reply::ReplayBuffer { active: false })
        },
{
}

/// Where the canvas cannot be matched, the output is not started: the session
/// goes back to serving, and the failure is reported.
pub proof fn law_failed_match_starts_nothing(s: SessionView, message: String)
    requires
        s.stage is Detecting || s.stage is Reading || s.stage is Writing,
    ensures
        s.after(Reply::Failed(message)).session.stage == Stage::Serving,
        s.stage.pending() is None ==> s.after(Reply::Failed(message)).reports.len() == 2
            && s.after(Reply::Failed(message)).reports[0] is CanvasMatchFailed && s.after(
            Reply::Failed(message),
        ).reports[1] == ObsEventView::ReplayBufferInactive,
        s.stage.pending() is Some ==> s.after(Reply::Failed(message)).reports.len() == 1
            && s.after(Reply::Failed(message)).reports[0] is CommandFailed,
{
}

/// Whether a report is the outcome of a command.
pub open spec fn is_outcome(report: ObsEventView) -> bool {
    report is CommandSucceeded || report is CommandFailed
}

/// Every command gets exactly one outcome: none is reported while it is being
/// carried out, its own is the only report that ends it, and no outcome is
/// reported where no command is pending.
pub proof fn law_every_command_has_one_outcome(s: SessionView, reply: Reply)
    requires
        answers(reply, s.stage.asks()),
    ensures
        ({
            let turn = s.after(reply);
            match s.stage.pending() {
                Some(c) => if turn.session.stage.pending() == Some(c) {
                    turn.reports.len() == 0
                } else {
                    &&& turn.session.stage == Stage::Serving
                    &&& turn.reports.len() == 1
                    &&& turn.reports[0] == ObsEventView::CommandSucceeded(c) || (
                    turn.reports[0] matches ObsEventView::CommandFailed(d, _) && d == c)
                },
                None => {
                    &&& forall|i: int|
                        0 <= i < turn.reports.len() ==> !is_outcome(#[trigger] turn.reports[i])
                    &&& turn.session.stage.pending() matches Some(c) ==> s.stage == Stage::Serving
                        && reply == Reply::Command(c)
                },
            }
        }),
{
}

/// A session that neither serves nor is over comes nearer to it with every
/// reply, so a command is never kept waiting by more than seven requests.
pub proof fn law_session_comes_to_serve(s: SessionView, reply: Reply)
    requires
        answers(reply, s.stage.asks()),
        s.stage != Stage::Serving,
    ensures
        s.after(reply).session.stage.distance() < s.stage.distance() <= 7,
{
}

/// The loss of the connection is reported exactly when it happens, and nothing
/// is reported with it.
pub proof fn law_loss_is_reported(s: SessionView, reply: Reply)
    requires
        answers(reply, s.stage.asks()),
    ensures
        s.after(reply).session.stage == Stage::Lost <==> s.after(reply).reports == seq![
            ObsEventView::Disconnected,
        ],
{
    let turn = s.after(reply);
    if turn.reports == seq![ObsEventView::Disconnected] {
        assert(turn.reports.len() == 1 && turn.reports[0] == ObsEventView::Disconnected);
    }
}

/// Whether a report leaves any runtime state with the replay buffer known to
/// run or not to run.
pub open spec fn tells_buffer(report: ObsEventView, active: bool) -> bool {
    forall|e: ObsEvent, s: RuntimeView, now: Instant|
        e@ == report ==> (#[trigger] s.after(e, now)).replay_buffer_active == Some(active)
            && s.after(e, now).state == s.state
}

/// Whether a report leaves any runtime state with the recording in a state.
pub open spec fn tells_recording(report: ObsEventView, state: ObsState) -> bool {
    forall|e: ObsEvent, s: RuntimeView, now: Instant|
        e@ == report ==> (#[trigger] s.after(e, now)).state == state && s.after(
            e,
            now,
        ).replay_buffer_active == s.replay_buffer_active
}

/// A notice of OBS reports the state that it carries: once the report has
/// arrived, the replay buffer is known to be in the state of the notice, and
/// the recording in that of its transition. A transition under way counts by
/// whether the output is active. Nothing else is reported.
pub proof fn law_notices_report_their_state(active: bool, phase: OutputPhase)
    ensures
        report_of(Notice::ReplayBuffer { active }) matches Some(report) && tells_buffer(
            report,
            active,
        ),
        report_of(Notice::Recording { active, phase }) matches Some(report) && tells_recording(
            report,
            match phase {
                OutputPhase::Started => ObsState::Recording,
                OutputPhase::Resumed => ObsState::Recording,
                OutputPhase::Paused => ObsState::RecordingPaused,
                OutputPhase::Stopped => ObsState::Idle,
                OutputPhase::Other => if active {
                    ObsState::Recording
                } else {
                    ObsState::Idle
                },
            },
        ),
        report_of(Notice::ReplayBuffer { active: true }) != report_of(
            Notice::ReplayBuffer { active: false },
        ),
        report_of(Notice::Other) is None,
{
}

/// While a session serves, what OBS tells is passed on at once, and a command
/// is carried out by the request of its name.
pub proof fn law_serving_passes_on_and_carries_out(s: SessionView, notice: Notice, command: ObsCommand)
    requires
        s.stage == Stage::Serving,
    ensures
        s.stage.asks() == Request::Next,
        s.after(Reply::Noticed(notice)).session == s,
        s.after(Reply::Noticed(notice)).reports == match report_of(notice) {
            Some(report) => seq![report],
            None => Seq::empty(),
        },
        ({
            let turn = s.after(Reply::Command(command));
            &&& turn.reports.len() == 0
            &&& turn.session.stage.asks() == match command {
                ObsCommand::SaveReplay => Request::SaveReplayBuffer,
                ObsCommand::PauseRecording => Request::TogglePause,
                ObsCommand::SplitRecording => Request::SplitFile,
                ObsCommand::ToggleRecording => if s.match_canvas {
                    Request::RecordingStatus
                } else {
                    Request::ToggleRecording
                },
            }
        }),
        s.after(Reply::CommandsClosed).session.stage.asks() == Request::Finish,
        s.after(Reply::CommandsClosed).reports.len() == 0,
        s.after(Reply::NoticesEnded).session.stage == Stage::Lost,
        s.after(Reply::NoticesEnded).session.reason == "event stream ended"@,
{
}

/// A command that is a single request succeeds with it and fails with it, for
/// the reason that OBS gave.
pub proof fn law_commands_end_as_their_request(s: SessionView, command: ObsCommand, reason: String)
    requires
        s.stage == Stage::Commanding(command) || (command == ObsCommand::ToggleRecording && (s.stage
            == Stage::StoppingRecording || s.stage == Stage::StartingRecording)),
    ensures
        s.after(Reply::Done).session.stage == Stage::Serving,
        s.after(Reply::Done).reports == seq![ObsEventView::CommandSucceeded(command)],
        s.after(Reply::Failed(reason)).session.stage == Stage::Serving,
        s.after(Reply::Failed(reason)).reports == seq![
            ObsEventView::CommandFailed(command, reason@),
        ],
{
}

/// With a canvas that is to follow the monitor, the recording is toggled by its
/// state: one that runs is stopped, and one that does not is started, after the
/// size of the monitor was asked for.
pub proof fn law_toggle_stops_what_runs(s: SessionView, active: bool, paused: bool, reason: String)
    requires
        s.stage == Stage::QueryingToggle,
    ensures
        s.stage.asks() == Request::RecordingStatus,
        s.after(Reply::Recording { active, paused }).reports.len() == 0,
        active ==> s.after(Reply::Recording { active, paused }).session.stage.asks()
            == Request::StopRecording,
        !active ==> s.after(Reply::Recording { active, paused }).session.stage.asks()
            == Request::DetectDisplay,
        s.after(Reply::Failed(reason)).reports == seq![
            ObsEventView::CommandFailed(ObsCommand::ToggleRecording, reason@),
        ],
{
}

/// The canvas is brought to the size of the monitor: OBS is asked for its
/// sizes, and where one of the four differs it is told that very size; then the
/// output is started. A failure names the step that failed.
pub proof fn law_canvas_gets_the_size_of_the_monitor(
    s: SessionView,
    output: Output,
    width: u32,
    height: u32,
    canvas: Canvas,
    reason: String,
)
    requires
        s.stage == Stage::Detecting(output),
    ensures
        ({
            let reading = s.after(Reply::Display { width, height }).session;
            let told = reading.after(Reply::Video(canvas)).session;
            let start = match output {
                Output::ReplayBuffer => Request::StartReplayBuffer,
                Output::Recording => Request::StartRecording,
            };
            let same = canvas.base_width == width && canvas.base_height == height
                && canvas.output_width == width && canvas.output_height == height;
            let message = |r: Seq<ObsEventView>, intro: Seq<char>| match output {
                Output::ReplayBuffer => r == seq![
                    ObsEventView::CanvasMatchFailed(intro + reason@),
                    ObsEventView::ReplayBufferInactive,
                ],
                Output::Recording => r == seq![
                    ObsEventView::CommandFailed(
                        ObsCommand::ToggleRecording,
                        intro + reason@,
                    ),
                ],
            };
            &&& s.stage.asks() == Request::DetectDisplay
            &&& reading.stage.asks() == Request::VideoSettings
            &&& same ==> told.stage.asks() == start
            &&& !same ==> told.stage.asks() == Request::SetVideoSettings { width, height }
                && told.after(Reply::Done).session.stage.asks() == start
            &&& message(s.after(Reply::Failed(reason)).reports, "detecting monitor resolution: "@)
            &&& message(
                reading.after(Reply::Failed(reason)).reports,
                "reading OBS video settings: "@,
            )
            &&& !same ==> message(
                told.after(Reply::Failed(reason)).reports,
                "setting OBS video settings: "@,
            )
        }),
{
}

/// A session begins with the subscription, then asks for the state of the
/// recording and of the replay buffer and reports both as they are; a state
/// that cannot be had is passed over. The replay buffer is started where the
/// configuration asks for it and it does not run, and never otherwise; whether
/// it came to run is reported.
pub proof fn law_sessions_begin_with_the_state_of_obs(
    config: ObsConfigView,
    active: bool,
    paused: bool,
    running: bool,
    reason: String,
)
    ensures
        ({
            let first = SessionView::begin(config);
            let second = first.after(Reply::Done).session;
            let told = second.after(Reply::Recording { active, paused });
            let third = told.session;
            let answer = third.after(Reply::ReplayBuffer { active: running });
            let wanted = config.start_replay_buffer && !running;
            &&& first.stage.asks() == Request::Subscribe
            &&& first.after(Reply::Failed(reason)).session.stage == Stage::Lost
            &&& first.after(Reply::Failed(reason)).session.reason == reason@
            &&& second.stage.asks() == Request::RecordingStatus
            &&& told.reports.len() == 1
            &&& tells_recording(
                told.reports[0],
                if !active {
                    ObsState::Idle
                } else if paused {
                    ObsState::RecordingPaused
                } else {
                    ObsState::Recording
                },
            )
            &&& second.after(Reply::Failed(reason)).session == third
            &&& second.after(Reply::Failed(reason)).reports.len() == 0
            &&& third.stage.asks() == Request::ReplayBufferStatus
            &&& third.after(Reply::Failed(reason)).session.stage == Stage::Serving
            &&& third.after(Reply::Failed(reason)).reports.len() == 0
            &&& !wanted ==> answer.session.stage == Stage::Serving && answer.reports.len() == 1
                && tells_buffer(answer.reports[0], running)
            &&& wanted ==> answer.reports.len() == 0 && answer.session.stage.asks()
                == if config.match_canvas_to_display {
                Request::DetectDisplay
            } else {
                Request::StartReplayBuffer
            }
        }),
{
}

/// Whether the replay buffer came to run is reported as it is.
pub proof fn law_started_buffers_are_reported(s: SessionView, reason: String)
    requires
        s.stage == Stage::StartingBuffer,
    ensures
        s.stage.asks() == Request::StartReplayBuffer,
        s.after(Reply::Done).session.stage == Stage::Serving,
        s.after(Reply::Done).reports.len() == 1,
        tells_buffer(s.after(Reply::Done).reports[0], true),
        s.after(Reply::Failed(reason)).session.stage == Stage::Serving,
        s.after(Reply::Failed(reason)).reports.len() == 1,
        tells_buffer(s.after(Reply::Failed(reason)).reports[0], false),
{
}

/// The dots at the end of a host and square brackets around it make no
/// difference to which host it is.
pub proof fn law_hosts_are_known_by_their_name(host: Seq<char>, dots: Seq<char>)
    requires
        host.len() > 0 ==> host.last() != '.',
        forall|i: int| 0 <= i < dots.len() ==> #[trigger] dots[i] == '.',
    ensures
        without_dots(host + dots) == host,
        without_brackets(seq!['['] + host + seq![']']) == host,
        !(host.len() > 0 && host[0] == '[') ==> without_brackets(host) == host,
    decreases dots.len(),
{
    if dots.len() > 0 {
        let rest = dots.drop_last();
        assert((host + dots).drop_last() =~= host + rest);
        assert(dots[dots.len() - 1] == '.');
        assert((host + dots).last() == '.');
        assert forall|i: int| 0 <= i < rest.len() implies #[trigger] rest[i] == '.' by {
            assert(dots[i] == '.');
        }
        law_hosts_are_known_by_their_name(host, rest);
    } else {
        assert(host + dots =~= host);
    }
    let inside = seq!['['] + host + seq![']'];
    assert(inside.subrange(1, inside.len() - 1) =~= host);
}

/// The waits between connections: two seconds at first, then twice the last,
/// and thirty at most; thirty seconds make a session a stable one.
pub proof fn law_connections_are_spaced()
    ensures
        BACKOFF_INITIAL_SECS == 2,
        BACKOFF_MAX_SECS == 30,
        STABLE_SESSION_MS == 30_000,
        BackoffView::fresh(BACKOFF_INITIAL_SECS as nat, BACKOFF_MAX_SECS as nat).next == 2,
{
}

} // verus!
