//! OBS Studio: commands, events and the channels to the OBS thread.
use vstd::prelude::*;

use tokio::sync::mpsc::{Receiver, Sender};

verus! {

/// An action of OBS that a button asks for.
#[derive(Debug, Clone, Copy, PartialEq, Eq, Structural)]
pub enum ObsCommand {
    SaveReplay,
    ToggleRecording,
    PauseRecording,
    SplitRecording,
}

impl ObsCommand {
    /// The words that describe a command.
    pub open spec fn words(self) -> Seq<char> {
        match self {
            ObsCommand::SaveReplay => "save replay buffer"@,
            ObsCommand::ToggleRecording => "toggle recording"@,
            ObsCommand::PauseRecording => "pause/resume recording"@,
            ObsCommand::SplitRecording => "split recording file"@,
        }
    }

    /// The words that describe the command.
    pub fn label(self) -> (r: &'static str)
        ensures
            r@ == self.words(),
    {
        match self {
            ObsCommand::SaveReplay => "save replay buffer",
            ObsCommand::ToggleRecording => "toggle recording",
            ObsCommand::PauseRecording => "pause/resume recording",
            ObsCommand::SplitRecording => "split recording file",
        }
    }
}

/// What the OBS thread reports.
#[derive(Debug, Clone)]
pub enum ObsEvent {
    Connected,
    Disconnected,
    /// Recording became active and is not paused.
    RecordingActive,
    /// Recording stopped.
    RecordingStopped,
    /// Recording is active but paused.
    RecordingPaused,
    /// Recording goes on after a pause.
    RecordingResumed,
    /// The replay buffer is running.
    ReplayBufferActive,
    /// The replay buffer is stopped.
    ReplayBufferInactive,
    /// A command completed.
    CommandSucceeded(ObsCommand),
    /// A command failed.
    CommandFailed(ObsCommand, String),
    /// The canvas could not be matched to the monitor, so the replay buffer
    /// was not started on a connection.
    CanvasMatchFailed(String),
}

/// The content of an [`ObsEvent`].
pub enum ObsEventView {
    Connected,
    Disconnected,
    RecordingActive,
    RecordingStopped,
    RecordingPaused,
    RecordingResumed,
    ReplayBufferActive,
    ReplayBufferInactive,
    CommandSucceeded(ObsCommand),
    CommandFailed(ObsCommand, Seq<char>),
    CanvasMatchFailed(Seq<char>),
}

impl View for ObsEvent {
    type V = ObsEventView;

    open spec fn view(&self) -> ObsEventView {
        match *self {
            ObsEvent::Connected => ObsEventView::Connected,
            ObsEvent::Disconnected => ObsEventView::Disconnected,
            ObsEvent::RecordingActive => ObsEventView::RecordingActive,
            ObsEvent::RecordingStopped => ObsEventView::RecordingStopped,
            ObsEvent::RecordingPaused => ObsEventView::RecordingPaused,
            ObsEvent::RecordingResumed => ObsEventView::RecordingResumed,
            ObsEvent::ReplayBufferActive => ObsEventView::ReplayBufferActive,
            ObsEvent::ReplayBufferInactive => ObsEventView::ReplayBufferInactive,
            ObsEvent::CommandSucceeded(c) => ObsEventView::CommandSucceeded(c),
            ObsEvent::CommandFailed(c, m) => ObsEventView::CommandFailed(c, m@),
            ObsEvent::CanvasMatchFailed(m) => ObsEventView::CanvasMatchFailed(m@),
        }
    }
}

/// The contents of a row of events.
pub open spec fn reports(v: Seq<ObsEvent>) -> Seq<ObsEventView> {
    Seq::new(v.len(), |i: int| v[i]@)
}

/// `tokio::sync::mpsc::Sender`: the end of a channel that is written to.
/// Nothing is claimed of it.
#[verifier::external_type_specification]
#[verifier::external_body]
#[verifier::reject_recursive_types(T)]
pub struct ExSender<T>(tokio::sync::mpsc::Sender<T>);

/// `tokio::sync::mpsc::Receiver`: the end of a channel that is read from.
/// Nothing is claimed of it.
#[verifier::external_type_specification]
#[verifier::external_body]
#[verifier::reject_recursive_types(T)]
pub struct ExReceiver<T>(tokio::sync::mpsc::Receiver<T>);

/// The main thread's ends of the channels to the OBS thread.
pub struct ObsHandle {
    pub commands_tx: Sender<ObsCommand>,
    pub events_rx: Receiver<ObsEvent>,
}

/// The commands that were handed to the writing end of a channel so far, each
/// with whether the channel took it.
pub uninterp spec fn handed_over(tx: Sender<ObsCommand>) -> Seq<(ObsCommand, bool)>;

/// The outcomes of the attempts so far to take an event out of a channel: the
/// event, or nothing where none had arrived.
pub uninterp spec fn taken_out(rx: Receiver<ObsEvent>) -> Seq<Option<ObsEvent>>;

/// `Sender::try_send`: hands the command to the channel, which takes it unless
/// it is full or closed. Which of the two happens is up to the thread at the
/// other end, so nothing is claimed of it; the attempt itself is recorded.
#[verifier::external_body]
pub(crate) fn try_send(tx: &mut Sender<ObsCommand>, command: ObsCommand) -> (taken: bool)
    ensures
        handed_over(*final(tx)) == handed_over(*old(tx)).push((command, taken)),
{
    tx.try_send(command).is_ok()
}

/// `Receiver::try_recv`: takes the next event out of the channel where there
/// is one. What has arrived is up to the thread at the other end, so nothing
/// is claimed of it; the attempt itself is recorded.
#[verifier::external_body]
pub(crate) fn try_recv(rx: &mut Receiver<ObsEvent>) -> (event: Option<ObsEvent>)
    ensures
        taken_out(*final(rx)) == taken_out(*old(rx)).push(event),
{
    rx.try_recv().ok()
}

/// What has gone through the channels to and from the OBS thread.
pub struct Traffic {
    /// The commands so far, each with whether the channel took it.
    pub commands: Seq<(ObsCommand, bool)>,
    /// The outcomes of the attempts so far to get an event.
    pub events: Seq<Option<ObsEvent>>,
}

/// What has gone through the channels of a handle.
pub open spec fn traffic_of(handle: Option<ObsHandle>) -> Option<Traffic> {
    match handle {
        Some(h) => Some(
            Traffic { commands: handed_over(h.commands_tx), events: taken_out(h.events_rx) },
        ),
        None => None,
    }
}

/// A row of events is read event by event, in its order.
pub proof fn law_reports_keep_their_order(v: Seq<ObsEvent>)
    ensures
        reports(v).len() == v.len(),
        forall|i: int| 0 <= i < v.len() ==> #[trigger] reports(v)[i] == v[i]@,
{
}

} // verus!
