//! The main loop: what to do next, and when the LEDs are painted.
use vstd::prelude::*;

use crate::clock::{Clock, Instant};
use crate::config::{
    default_obs_colors, ActionView, Config, ConfigView, ControlId, ObsColors, RgbMode,
};
use crate::device::Event;
use crate::obs::{traffic_of, ObsCommand, ObsEvent, ObsHandle, Traffic};
use crate::paint::{indicator_shows, logo_indicator_visible, look, packets, paint_leds_at};
use crate::panel::{
    effects, fits, Effect, EffectView, Outcome, PanelTask, TaskStage, TaskTurn, TaskView, Work,
    WorkView,
};
use crate::poller::{
    refresh_mic_muted, AudioReconnector, AudioReconnectorView, MicPoller, PollNote,
};
use crate::runtime::{
    after_dispatch, after_draining, reachable, timed, ObsRuntime, ObsState, RuntimeView,
};

verus! {

/// Why the microphone is queried out of turn.
#[derive(Debug, Clone, Copy, PartialEq, Eq, Structural)]
pub enum Cause {
    /// The system has woken up.
    Resume,
    /// PulseAudio is back.
    Reconnect,
}

/// What the main loop waits for.
#[derive(Debug, Clone, Copy, PartialEq, Eq, Structural)]
pub enum Step {
    /// The first state of the microphone, so that the first painting is right.
    Seeding,
    FirstPaint,
    /// The next round.
    Idle,
    /// Whether the system has woken up.
    Resume,
    Refreshing(Cause),
    /// Whether PulseAudio is there.
    Audio,
    /// The outcome of an attempt to reach PulseAudio, begun at this instant.
    Reconnecting(Instant),
    Polling,
    /// The volumes that are ready to be persisted.
    Flushing,
    /// The next event of the panel.
    Reading,
    /// A new panel in place of one that went away.
    Reopening,
    /// What an event leads to.
    Working,
    Painting,
}

/// What the main loop asks for.
#[derive(Debug)]
pub enum Demand {
    /// Begin the next round.
    NextRound,
    /// Query the microphone out of turn.
    QueryMic,
    /// Query the microphone in turn.
    PollMic,
    CheckResume,
    CheckAudio,
    ReconnectAudio,
    FlushPersist,
    ReadPanel,
    ReopenPanel,
    Perform(Work),
    /// Write these packets to the panel.
    Paint(Vec<Vec<u8>>),
}

/// The content of a [`Demand`].
pub enum DemandView {
    NextRound,
    QueryMic,
    PollMic,
    CheckResume,
    CheckAudio,
    ReconnectAudio,
    FlushPersist,
    ReadPanel,
    ReopenPanel,
    Perform(WorkView),
    Paint(Seq<Seq<u8>>),
}

impl View for Demand {
    type V = DemandView;

    open spec fn view(&self) -> DemandView {
        match *self {
            Demand::NextRound => DemandView::NextRound,
            Demand::QueryMic => DemandView::QueryMic,
            Demand::PollMic => DemandView::PollMic,
            Demand::CheckResume => DemandView::CheckResume,
            Demand::CheckAudio => DemandView::CheckAudio,
            Demand::ReconnectAudio => DemandView::ReconnectAudio,
            Demand::FlushPersist => DemandView::FlushPersist,
            Demand::ReadPanel => DemandView::ReadPanel,
            Demand::ReopenPanel => DemandView::ReopenPanel,
            Demand::Perform(work) => DemandView::Perform(work@),
            Demand::Paint(p) => DemandView::Paint(packets(p@)),
        }
    }
}

/// What has become of a demand.
#[derive(Debug)]
pub enum Happened {
    Done,
    /// Whether the microphone is muted; nothing where the query failed.
    Mic(Option<bool>),
    Resumed(bool),
    AudioConnected(bool),
    Reconnected(bool),
    Panel(Option<Event>),
    PanelLost,
    Worked(Outcome),
}

/// What there is to do and to note after a step.
#[derive(Debug)]
pub struct Report {
    /// The effects of an event. Those that concern the microphone state or OBS
    /// have been carried out.
    pub effects: Vec<Effect>,
    /// The commands that did not get through to OBS.
    pub skipped: Vec<ObsCommand>,
    pub note: PollNote,
}

/// The content of a [`Controller`].
#[verifier::ext_equal]
pub struct ControllerView {
    pub mappings: Map<ControlId, ActionView>,
    pub rgb: Option<RgbMode>,
    pub verbose: bool,
    pub runtime: RuntimeView,
    /// What has gone through the channels to and from the OBS thread.
    pub traffic: Option<Traffic>,
    pub poller: MicPoller,
    pub link: AudioReconnectorView,
    /// Whether the LEDs need a repaint.
    pub dirty: bool,
    pub step: Step,
    pub task: TaskView,
}

/// The main loop after a step.
#[verifier::ext_equal]
pub struct ControllerTurn {
    pub controller: ControllerView,
    pub effects: Seq<EffectView>,
    pub skipped: Seq<ObsCommand>,
    pub note: PollNote,
}

/// What effects act on.
pub struct Surroundings {
    pub runtime: RuntimeView,
    /// Whether the LEDs need a repaint.
    pub dirty: bool,
    pub traffic: Option<Traffic>,
    /// The commands that did not get through to OBS.
    pub skipped: Seq<ObsCommand>,
}

/// What a row of effects leads to. `taken` tells for each of them whether the
/// channel to OBS would take a command. Only a connected channel is asked; a
/// command that is not taken sets the error flash.
pub open spec fn applied(
    start: Surroundings,
    effects: Seq<EffectView>,
    taken: Seq<bool>,
    now: Instant,
) -> Surroundings
    decreases effects.len(),
{
    if effects.len() == 0 {
        start
    } else {
        let n = effects.len() - 1;
        let s = applied(start, effects.drop_last(), taken, now);
        match effects[n] {
            EffectView::MicMuted(muted) => Surroundings {
                runtime: s.runtime.with_mic(muted, now),
                dirty: s.dirty || s.runtime.mic_news(muted, now),
                ..s
            },
            EffectView::Dispatch(command) => {
                let sent = reachable(s.traffic, s.runtime.connected) && taken[n];
                Surroundings {
                    runtime: if sent {
                        s.runtime
                    } else {
                        s.runtime.with_error_flash(now)
                    },
                    dirty: s.dirty || !sent,
                    traffic: after_dispatch(s.traffic, s.runtime.connected, command, sent),
                    skipped: if sent {
                        s.skipped
                    } else {
                        s.skipped.push(command)
                    },
                }
            },
            _ => s,
        }
    }
}

/// Whether something that happened is what a step waits for.
pub open spec fn suits(happened: Happened, step: Step, stage: TaskStage) -> bool {
    match step {
        Step::Seeding => happened is Mic,
        Step::FirstPaint => happened is Done,
        Step::Idle => false,
        Step::Resume => happened is Resumed,
        Step::Refreshing(_) => happened is Mic,
        Step::Audio => happened is AudioConnected,
        Step::Reconnecting(_) => happened is Reconnected,
        Step::Polling => happened is Mic,
        Step::Flushing => happened is Done,
        Step::Reading => happened is Panel || happened is PanelLost,
        Step::Reopening => happened is Done,
        Step::Working => match happened {
            Happened::Worked(outcome) => fits(outcome, stage),
            _ => false,
        },
        Step::Painting => happened is Done,
    }
}

impl ControllerView {
    /// The start of the program.
    pub open spec fn begin(
        config: ConfigView,
        traffic: Option<Traffic>,
        verbose: bool,
        clock: Clock,
        born: Instant,
    ) -> ControllerView {
        let runtime = RuntimeView {
            connected: false,
            state: ObsState::Idle,
            colors: match config.obs {
                Some(obs) => obs.colors,
                None => default_obs_colors(),
            },
            flash: None,
            replay_buffer_active: None,
            paused_use_breath: match config.obs {
                Some(obs) => obs.paused_use_breath,
                None => false,
            },
            mic_muted: false,
            mic_confirmed_at: born,
            logo_cfg: config.logo,
            clock,
        };
        ControllerView {
            mappings: config.mappings,
            rgb: config.rgb,
            verbose,
            runtime,
            traffic,
            poller: MicPoller { last_poll: None, failures: 0 },
            link: AudioReconnectorView::fresh(),
            dirty: false,
            step: if runtime.mic_indicator() {
                Step::Seeding
            } else {
                Step::FirstPaint
            },
            task: TaskView::idle(),
        }
    }

    /// The start of a round, once the events of OBS have arrived. A repaint
    /// that only lets the logo blink is asked for where the logo shows it:
    /// elsewhere it would restart an animation for nothing.
    pub open spec fn round(
        self,
        events: Seq<(ObsEvent, Instant)>,
        now: Instant,
    ) -> ControllerView {
        let (told, news) = self.runtime.after_all(events);
        let runtime = told.without_expired_flash(now);
        ControllerView {
            runtime,
            traffic: after_draining(self.traffic, events),
            dirty: news || told.flash_wants_repaint(now) || (runtime.mic_indicator()
                && runtime.mic_stale(now) && indicator_shows(runtime, self.rgb)),
            step: Step::Resume,
            ..self
        }
    }

    /// Goes on to a step.
    pub open spec fn goes_to(self, step: Step) -> ControllerTurn {
        ControllerTurn {
            controller: ControllerView { step, ..self },
            effects: Seq::empty(),
            skipped: Seq::empty(),
            note: PollNote::Nothing,
        }
    }

    /// The microphone is polled where it is time for it.
    pub open spec fn polls(self, now: Instant) -> ControllerTurn {
        if self.runtime.mic_indicator() && self.poller.is_due(now) {
            ControllerView {
                poller: MicPoller { last_poll: Some(now), ..self.poller },
                ..self
            }.goes_to(Step::Polling)
        } else {
            self.goes_to(Step::Flushing)
        }
    }

    /// The microphone is queried out of turn where the logo shows it.
    pub open spec fn refreshes(self, cause: Cause, now: Instant) -> ControllerTurn {
        if self.runtime.mic_indicator() {
            self.goes_to(Step::Refreshing(cause))
        } else {
            self.goes_on_after(cause, now)
        }
    }

    /// What comes after a query out of turn.
    pub open spec fn goes_on_after(self, cause: Cause, now: Instant) -> ControllerTurn {
        match cause {
            Cause::Resume => self.goes_to(Step::Audio),
            Cause::Reconnect => self.polls(now),
        }
    }

    /// The query out of turn has an outcome.
    pub open spec fn refreshed(self, cause: Cause, mic: Option<bool>, now: Instant) -> ControllerTurn {
        let told = match mic {
            Some(muted) => ControllerView {
                runtime: self.runtime.with_mic(muted, now),
                poller: MicPoller { last_poll: Some(now), ..self.poller },
                ..self
            },
            None => self,
        };
        told.goes_on_after(cause, now)
    }

    /// The round is over: the LEDs are painted if need be.
    pub open spec fn ends(self) -> ControllerView {
        ControllerView {
            step: if self.dirty {
                Step::Painting
            } else {
                Step::Idle
            },
            ..self
        }
    }

    /// What effects act on.
    pub open spec fn surroundings(self) -> Surroundings {
        Surroundings {
            runtime: self.runtime,
            dirty: self.dirty,
            traffic: self.traffic,
            skipped: Seq::empty(),
        }
    }

    /// The main loop in other surroundings.
    pub open spec fn within(self, s: Surroundings) -> ControllerView {
        ControllerView { runtime: s.runtime, dirty: s.dirty, traffic: s.traffic, ..self }
    }

    /// An event has led to something.
    pub open spec fn acts(self, turn: TaskTurn, taken: Seq<bool>, now: Instant) -> ControllerTurn {
        let told = ControllerView {
            task: turn.task,
            ..self.within(applied(self.surroundings(), turn.effects, taken, now))
        };
        ControllerTurn {
            controller: if turn.task.stage == TaskStage::Done {
                told.ends()
            } else {
                ControllerView { step: Step::Working, ..told }
            },
            effects: turn.effects,
            skipped: applied(self.surroundings(), turn.effects, taken, now).skipped,
            note: PollNote::Nothing,
        }
    }

    /// What an event of the panel leads to next, where that is what happened.
    pub open spec fn turn_of(self, happened: Happened) -> Option<TaskTurn> {
        match (self.step, happened) {
            (Step::Reading, Happened::Panel(Some(event))) => Some(
                TaskView::begin(event, self.mappings, self.verbose),
            ),
            (Step::Working, Happened::Worked(outcome)) => Some(self.task.after(outcome)),
            _ => None,
        }
    }

    /// The main loop after something happened that is no event of the panel.
    pub open spec fn moved(self, happened: Happened, now: Instant) -> ControllerTurn {
        match (self.step, happened) {
            (Step::Seeding, Happened::Mic(mic)) => ControllerView {
                runtime: match mic {
                    Some(muted) => self.runtime.with_mic(muted, now),
                    None => self.runtime,
                },
                ..self
            }.goes_to(Step::FirstPaint),
            (Step::FirstPaint, Happened::Done) => self.goes_to(Step::Idle),
            (Step::Resume, Happened::Resumed(resumed)) => if resumed {
                ControllerView { dirty: true, ..self }.refreshes(Cause::Resume, now)
            } else {
                self.goes_to(Step::Audio)
            },
            (Step::Refreshing(cause), Happened::Mic(mic)) => self.refreshed(cause, mic, now),
            (Step::Audio, Happened::AudioConnected(connected)) => {
                if connected {
                    ControllerView { link: self.link.calmed(), ..self }.polls(now)
                } else if self.link.may_attempt(now) {
                    self.goes_to(Step::Reconnecting(now))
                } else {
                    self.polls(now)
                }
            },
            (Step::Reconnecting(begun), Happened::Reconnected(ok)) => {
                let told = ControllerView { link: self.link.after(ok, begun), ..self };
                if ok {
                    ControllerView { dirty: true, ..told }.refreshes(Cause::Reconnect, now)
                } else {
                    told.polls(now)
                }
            },
            (Step::Polling, Happened::Mic(mic)) => ControllerTurn {
                controller: ControllerView {
                    poller: self.poller.after(mic),
                    runtime: match mic {
                        Some(muted) => self.runtime.with_mic(muted, now),
                        None => self.runtime,
                    },
                    dirty: self.dirty || match mic {
                        Some(muted) => self.runtime.mic_news(muted, now),
                        None => false,
                    },
                    step: Step::Flushing,
                    ..self
                },
                effects: Seq::empty(),
                skipped: Seq::empty(),
                note: self.poller.note(mic),
            },
            (Step::Flushing, Happened::Done) => self.goes_to(Step::Reading),
            (Step::Reading, Happened::Panel(_)) => ControllerTurn {
                controller: self.ends(),
                effects: Seq::empty(),
                skipped: Seq::empty(),
                note: PollNote::Nothing,
            },
            (Step::Reading, Happened::PanelLost) => self.goes_to(Step::Reopening),
            (Step::Reopening, Happened::Done) => ControllerTurn {
                controller: ControllerView { dirty: true, ..self }.ends(),
                effects: Seq::empty(),
                skipped: Seq::empty(),
                note: PollNote::Nothing,
            },
            (Step::Painting, Happened::Done) => ControllerView { dirty: false, ..self }.goes_to(
                Step::Idle,
            ),
            _ => self.goes_to(self.step),
        }
    }

    /// The main loop after something happened.
    pub open spec fn after(self, happened: Happened, taken: Seq<bool>, now: Instant) -> ControllerTurn {
        match self.turn_of(happened) {
            Some(turn) => self.acts(turn, taken, now),
            None => self.moved(happened, now),
        }
    }

    /// Whether the main loop can be in this state: a query out of turn and a
    /// painting come only where a repaint was asked for.
    pub open spec fn is_valid(self) -> bool {
        &&& self.task.is_valid()
        &&& self.step is Refreshing ==> self.dirty
        &&& self.step == Step::Painting ==> self.dirty
    }

    /// What the main loop asks for.
    pub open spec fn demand(self, now: Instant) -> DemandView {
        match self.step {
            Step::Seeding => DemandView::QueryMic,
            Step::FirstPaint => DemandView::Paint(look(self.runtime, self.rgb, now)),
            Step::Idle => DemandView::NextRound,
            Step::Resume => DemandView::CheckResume,
            Step::Refreshing(_) => DemandView::QueryMic,
            Step::Audio => DemandView::CheckAudio,
            Step::Reconnecting(_) => DemandView::ReconnectAudio,
            Step::Polling => DemandView::PollMic,
            Step::Flushing => DemandView::FlushPersist,
            Step::Reading => DemandView::ReadPanel,
            Step::Reopening => DemandView::ReopenPanel,
            Step::Working => DemandView::Perform(self.task.work()),
            Step::Painting => DemandView::Paint(look(self.runtime, self.rgb, now)),
        }
    }
}

/// The main loop.
pub struct Controller {
    config: Config,
    verbose: bool,
    obs: ObsRuntime,
    poller: MicPoller,
    link: AudioReconnector,
    dirty: bool,
    step: Step,
    task: PanelTask,
}

impl View for Controller {
    type V = ControllerView;

    closed spec fn view(&self) -> ControllerView {
        ControllerView {
            mappings: self.config@.mappings,
            rgb: self.config.rgb,
            verbose: self.verbose,
            runtime: self.obs@,
            traffic: self.obs.traffic(),
            poller: self.poller,
            link: self.link@,
            dirty: self.dirty,
            step: self.step,
            task: self.task@,
        }
    }
}

impl Controller {
    /// The start of the program. Without an `[obs]` section no event of OBS
    /// arrives, and the colors that stand for it are never seen.
    pub fn new(config: Config, handle: Option<ObsHandle>, verbose: bool) -> (r: Controller)
        ensures
            exists|clock: Clock, born: Instant|
                born.is_reading() && r@ == #[trigger] ControllerView::begin(
                    config@,
                    traffic_of(handle),
                    verbose,
                    clock,
                    born,
                ),
    {
        let (colors, paused_use_breath) = match &config.obs {
            Some(obs) => (obs.colors, obs.paused_use_breath),
            None => (ObsColors::default(), false),
        };
        let obs = ObsRuntime::new(handle, colors, paused_use_breath, config.logo);
        let ghost born = obs@.mic_confirmed_at;
        let ghost clock = obs@.clock;
        let step = if obs.mic_indicator_enabled() {
            Step::Seeding
        } else {
            Step::FirstPaint
        };
        let task = PanelTask::idle();
        let r = Controller {
            config,
            verbose,
            obs,
            poller: MicPoller::new(),
            link: AudioReconnector::new(),
            dirty: false,
            step,
            task,
        };
        assert(r@ =~= ControllerView::begin(config@, traffic_of(handle), verbose, clock, born));
        r
    }

    /// The time by which the loop goes.
    pub fn now(&self) -> (r: Instant)
        ensures
            r.is_reading(),
    {
        self.obs.now()
    }

    /// What the loop asks for.
    pub fn demand(&self, now: Instant) -> (r: Demand)
        ensures
            r@ == self@.demand(now),
    {
        match self.step {
            Step::Seeding | Step::Refreshing(_) => Demand::QueryMic,
            Step::Polling => Demand::PollMic,
            Step::FirstPaint | Step::Painting => Demand::Paint(
                paint_leds_at(&self.obs, self.config.rgb, now),
            ),
            Step::Idle => Demand::NextRound,
            Step::Resume => Demand::CheckResume,
            Step::Audio => Demand::CheckAudio,
            Step::Reconnecting(_) => Demand::ReconnectAudio,
            Step::Flushing => Demand::FlushPersist,
            Step::Reading => Demand::ReadPanel,
            Step::Reopening => Demand::ReopenPanel,
            Step::Working => Demand::Perform(self.task.work()),
        }
    }

    /// Begins a round: takes the events of OBS and lets the flash expire by
    /// the time at which all of them have been taken.
    pub fn begin_round(&mut self)
        requires
            old(self)@.step == Step::Idle,
        ensures
            exists|events: Seq<(ObsEvent, Instant)>, now: Instant|
                {
                    &&& final(self)@ == #[trigger] old(self)@.round(events, now)
                    &&& now.is_reading()
                    &&& timed(events)
                    &&& old(self)@.traffic is None ==> events.len() == 0
                },
    {
        let news = self.obs.drain_events();
        let ghost told = self.obs@;
        let ghost heard = self.obs.traffic();
        let ghost events = choose|events: Seq<(ObsEvent, Instant)>|
            {
                &&& (told, news) == #[trigger] old(self)@.runtime.after_all(events)
                &&& heard == after_draining(old(self)@.traffic, events)
                &&& timed(events)
                &&& old(self)@.traffic is None ==> events.len() == 0
            };
        let now = self.now();
        self.settle(news, now);
        assert(self@ =~= old(self)@.round(events, now));
    }

    /// [`Controller::begin_round`] where the flash expires by an instant.
    pub fn begin_round_at(&mut self, now: Instant)
        requires
            old(self)@.step == Step::Idle,
        ensures
            exists|events: Seq<(ObsEvent, Instant)>|
                {
                    &&& final(self)@ == #[trigger] old(self)@.round(events, now)
                    &&& timed(events)
                    &&& old(self)@.traffic is None ==> events.len() == 0
                },
    {
        let news = self.obs.drain_events();
        let ghost told = self.obs@;
        let ghost heard = self.obs.traffic();
        let ghost events = choose|events: Seq<(ObsEvent, Instant)>|
            {
                &&& (told, news) == #[trigger] old(self)@.runtime.after_all(events)
                &&& heard == after_draining(old(self)@.traffic, events)
                &&& timed(events)
                &&& old(self)@.traffic is None ==> events.len() == 0
            };
        self.settle(news, now);
        assert(self@ =~= old(self)@.round(events, now));
    }

    /// Goes on with a round once the events of OBS were taken; `news` tells
    /// whether one of them asks for a repaint.
    fn settle(&mut self, news: bool, now: Instant)
        ensures
            final(self)@ == (ControllerView {
                runtime: old(self)@.runtime.without_expired_flash(now),
                dirty: news || old(self)@.runtime.flash_wants_repaint(now) || ({
                    let runtime = old(self)@.runtime.without_expired_flash(now);
                    runtime.mic_indicator() && runtime.mic_stale(now) && indicator_shows(
                        runtime,
                        old(self)@.rgb,
                    )
                }),
                step: Step::Resume,
                ..old(self)@
            }),
    {
        let flash = self.obs.expire_flash_at(now);
        let blink = self.obs.mic_indicator_needs_repaint(now) && logo_indicator_visible(
            &self.obs,
            self.config.rgb,
        );
        self.dirty = news || flash || blink;
        self.step = Step::Resume;
    }

    /// Whether something that happened is what the loop waits for.
    pub fn expects(&self, happened: &Happened) -> (r: bool)
        ensures
            r == suits(*happened, self@.step, self@.task.stage),
    {
        match self.step {
            Step::Seeding | Step::Refreshing(_) | Step::Polling => matches!(
                happened,
                Happened::Mic(_)
            ),
            Step::FirstPaint | Step::Flushing | Step::Reopening | Step::Painting => matches!(
                happened,
                Happened::Done
            ),
            Step::Idle => false,
            Step::Resume => matches!(happened, Happened::Resumed(_)),
            Step::Audio => matches!(happened, Happened::AudioConnected(_)),
            Step::Reconnecting(_) => matches!(happened, Happened::Reconnected(_)),
            Step::Reading => matches!(happened, Happened::Panel(_) | Happened::PanelLost),
            Step::Working => match happened {
                Happened::Worked(outcome) => self.task.expects(outcome),
                _ => false,
            },
        }
    }

    fn poll(&mut self, now: Instant)
        ensures
            final(self)@ == old(self)@.polls(now).controller,
    {
        if self.poller.tick(&self.obs, now) {
            self.step = Step::Polling;
        } else {
            self.step = Step::Flushing;
        }
        assert(self@ =~= old(self)@.polls(now).controller);
    }

    fn go_on_after(&mut self, cause: Cause, now: Instant)
        ensures
            final(self)@ == old(self)@.goes_on_after(cause, now).controller,
    {
        match cause {
            Cause::Resume => {
                self.step = Step::Audio;
            },
            Cause::Reconnect => self.poll(now),
        }
    }

    fn refresh(&mut self, cause: Cause, now: Instant)
        ensures
            final(self)@ == old(self)@.refreshes(cause, now).controller,
    {
        if self.obs.mic_indicator_enabled() {
            self.step = Step::Refreshing(cause);
        } else {
            self.go_on_after(cause, now);
        }
    }

    fn end(&mut self)
        ensures
            final(self)@ == old(self)@.ends(),
    {
        self.step = if self.dirty {
            Step::Painting
        } else {
            Step::Idle
        };
    }

    /// Carries out the effects that concern the runtime state.
    fn apply(&mut self, out: &Vec<Effect>, now: Instant) -> (skipped: Vec<ObsCommand>)
        requires
            now.is_reading(),
        ensures
            exists|taken: Seq<bool>|
                {
                    let s = #[trigger] applied(
                        old(self)@.surroundings(),
                        effects(out@),
                        taken,
                        now,
                    );
                    &&& taken.len() == out@.len()
                    &&& final(self)@ == old(self)@.within(s)
                    &&& skipped@ == s.skipped
                },
    {
        let ghost all = effects(out@);
        let ghost mut taken: Seq<bool> = Seq::empty();
        let ghost start = self@;
        let mut skipped: Vec<ObsCommand> = Vec::new();
        let mut i: usize = 0;
        assert(all.take(0) =~= Seq::<EffectView>::empty());
        while i < out.len()
            invariant
                i <= out@.len(),
                all == effects(out@),
                now.is_reading(),
                taken.len() == i,
                start == old(self)@,
                self@ == start.within(
                    applied(start.surroundings(), all.take(i as int), taken, now),
                ),
                skipped@ == applied(
                    start.surroundings(),
                    all.take(i as int),
                    taken,
                    now,
                ).skipped,
            decreases out@.len() - i,
        {
            let mut failed = true;
            match &out[i] {
                Effect::MicMuted(muted) => {
                    let news = self.obs.update_mic_muted(*muted, now);
                    self.dirty = self.dirty || news;
                },
                Effect::Dispatch(command) => {
                    failed = self.obs.dispatch_at(*command, now);
                    self.dirty = self.dirty || failed;
                    if failed {
                        skipped.push(*command);
                    }
                },
                Effect::Trace(_) | Effect::Popup(_) => {},
            }
            proof {
                let more = taken.push(!failed);
                assert(all.take(i + 1).drop_last() =~= all.take(i as int));
                assert(all[i as int] == out@[i as int]@);
                lemma_applied_prefix(start.surroundings(), all.take(i as int), taken, more, now);
                taken = more;
            }
            i = i + 1;
        }
        assert(all.take(i as int) =~= all);
        skipped
    }

    fn act(&mut self, task: PanelTask, out: Vec<Effect>, now: Instant) -> (r: Report)
        requires
            now.is_reading(),
        ensures
            exists|taken: Seq<bool>|
                {
                    &&& taken.len() == out@.len()
                    &&& (ControllerTurn {
                        controller: final(self)@,
                        effects: effects(r.effects@),
                        skipped: r.skipped@,
                        note: r.note,
                    }) == #[trigger] old(self)@.acts(
                        TaskTurn { task: task@, effects: effects(out@) },
                        taken,
                        now,
                    )
                },
    {
        let ghost before = self@;
        let done = match task.work() {
            Work::Finished => true,
            _ => false,
        };
        let skipped = self.apply(&out, now);
        let ghost told = self@;
        let ghost taken = choose|taken: Seq<bool>|
            {
                &&& taken.len() == out@.len()
                &&& told == before.within(
                    #[trigger] applied(before.surroundings(), effects(out@), taken, now),
                )
                &&& skipped@ == applied(before.surroundings(), effects(out@), taken, now).skipped
            };
        self.task = task;
        if done {
            self.end();
        } else {
            self.step = Step::Working;
        }
        proof {
            let turn = before.acts(TaskTurn { task: task@, effects: effects(out@) }, taken, now);
            assert(self@ =~= turn.controller);
        }
        Report { effects: out, skipped, note: PollNote::Nothing }
    }

    /// Takes an event of the panel.
    fn take_event(&mut self, event: Event, now: Instant) -> (r: Report)
        requires
            now.is_reading(),
            old(self)@.step == Step::Reading,
        ensures
            exists|taken: Seq<bool>|
                {
                    &&& taken.len() == r.effects@.len()
                    &&& (ControllerTurn {
                        controller: final(self)@,
                        effects: effects(r.effects@),
                        skipped: r.skipped@,
                        note: r.note,
                    }) == #[trigger] old(self)@.after(Happened::Panel(Some(event)), taken, now)
                },
    {
        let ghost before = self@;
        let (task, out) = PanelTask::handle_panel_event(event, &self.config, self.verbose);
        let r = self.act(task, out, now);
        proof {
            let turn = TaskTurn { task: task@, effects: effects(out@) };
            let taken = choose|taken: Seq<bool>|
                {
                    &&& taken.len() == out@.len()
                    &&& (ControllerTurn {
                        controller: self@,
                        effects: effects(r.effects@),
                        skipped: r.skipped@,
                        note: r.note,
                    }) == #[trigger] before.acts(turn, taken, now)
                };
            assert(before.after(Happened::Panel(Some(event)), taken, now) == before.acts(
                turn,
                taken,
                now,
            ));
            assert(effects(r.effects@).len() == effects(out@).len());
        }
        r
    }

    /// Takes the reply to the work of an event.
    fn take_outcome(&mut self, outcome: Outcome, now: Instant) -> (r: Report)
        requires
            now.is_reading(),
            old(self)@.step == Step::Working,
            fits(outcome, old(self)@.task.stage),
        ensures
            exists|taken: Seq<bool>|
                {
                    &&& taken.len() == r.effects@.len()
                    &&& (ControllerTurn {
                        controller: final(self)@,
                        effects: effects(r.effects@),
                        skipped: r.skipped@,
                        note: r.note,
                    }) == #[trigger] old(self)@.after(Happened::Worked(outcome), taken, now)
                },
    {
        let ghost before = self@;
        let mut task = PanelTask::idle();
        std::mem::swap(&mut task, &mut self.task);
        let out = task.advance(outcome);
        let ghost mid = self@;
        let r = self.act(task, out, now);
        proof {
            let turn = TaskTurn { task: task@, effects: effects(out@) };
            let taken = choose|taken: Seq<bool>|
                {
                    &&& taken.len() == out@.len()
                    &&& (ControllerTurn {
                        controller: self@,
                        effects: effects(r.effects@),
                        skipped: r.skipped@,
                        note: r.note,
                    }) == #[trigger] mid.acts(turn, taken, now)
                };
            assert(mid =~= ControllerView { task: TaskView::idle(), ..before });
            assert(mid.acts(turn, taken, now) =~= before.acts(turn, taken, now));
            assert(before.after(Happened::Worked(outcome), taken, now) == before.acts(
                turn,
                taken,
                now,
            ));
            assert(effects(r.effects@).len() == effects(out@).len());
        }
        r
    }

    /// Takes whether PulseAudio is there.
    fn take_audio(&mut self, connected: bool, now: Instant)
        requires
            old(self)@.step == Step::Audio,
        ensures
            final(self)@ == old(self)@.moved(
                Happened::AudioConnected(connected),
                now,
            ).controller,
    {
        let ghost before = self@;
        if self.link.tick(connected, now) {
            self.step = Step::Reconnecting(now);
            assert(self@ =~= before.moved(Happened::AudioConnected(connected), now).controller);
        } else {
            assert(connected ==> self@ =~= (ControllerView {
                link: before.link.calmed(),
                ..before
            }));
            assert(!connected ==> self@ =~= before);
            self.poll(now);
        }
    }

    /// Takes the outcome of an attempt to reach PulseAudio that was begun at
    /// an instant.
    fn take_attempt(&mut self, begun: Instant, ok: bool, now: Instant)
        requires
            old(self)@.step == Step::Reconnecting(begun),
        ensures
            final(self)@ == old(self)@.moved(Happened::Reconnected(ok), now).controller,
    {
        let ghost before = self@;
        self.link.attempted(ok, begun);
        assert(self@ =~= (ControllerView { link: before.link.after(ok, begun), ..before }));
        if ok {
            self.dirty = true;
            self.refresh(Cause::Reconnect, now);
        } else {
            self.poll(now);
        }
    }

    /// Takes the outcome of a query of the microphone.
    fn take_mic(&mut self, mic: Option<bool>, now: Instant) -> (note: PollNote)
        requires
            old(self)@.step == Step::Seeding || old(self)@.step is Refreshing || old(self)@.step
                == Step::Polling,
        ensures
            final(self)@ == old(self)@.moved(Happened::Mic(mic), now).controller,
            note == old(self)@.moved(Happened::Mic(mic), now).note,
    {
        let ghost before = self@;
        match self.step {
            Step::Seeding => {
                refresh_mic_muted(&mut self.obs, mic, now);
                self.step = Step::FirstPaint;
                assert(self@ =~= before.moved(Happened::Mic(mic), now).controller);
            },
            Step::Refreshing(cause) => {
                self.poller.refresh_now(&mut self.obs, mic, now);
                assert(self@ =~= match mic {
                    Some(muted) => ControllerView {
                        runtime: before.runtime.with_mic(muted, now),
                        poller: MicPoller { last_poll: Some(now), ..before.poller },
                        ..before
                    },
                    None => before,
                });
                self.go_on_after(cause, now);
            },
            _ => {
                let (news, note) = self.poller.polled(&mut self.obs, mic, now);
                self.dirty = self.dirty || news;
                self.step = Step::Flushing;
                assert(self@ =~= before.moved(Happened::Mic(mic), now).controller);
                return note;
            },
        }
        PollNote::Nothing
    }

    /// Takes anything else.
    #[verifier::spinoff_prover]
    fn move_on(&mut self, happened: Happened, now: Instant) -> (note: PollNote)
        requires
            now.is_reading(),
            suits(happened, old(self)@.step, old(self)@.task.stage),
            !(happened is Worked),
            happened matches Happened::Panel(event) ==> event is None,
        ensures
            (ControllerTurn {
                controller: final(self)@,
                effects: Seq::empty(),
                skipped: Seq::empty(),
                note,
            }) == old(
                self,
            )@.moved(happened, now),
    {
        match (self.step, happened) {
            (_, Happened::Mic(mic)) => {
                return self.take_mic(mic, now);
            },
            (Step::FirstPaint, Happened::Done) => {
                self.step = Step::Idle;
            },
            (Step::Resume, Happened::Resumed(resumed)) => {
                if resumed {
                    self.dirty = true;
                    self.refresh(Cause::Resume, now);
                } else {
                    self.step = Step::Audio;
                }
            },
            (Step::Audio, Happened::AudioConnected(connected)) => self.take_audio(connected, now),
            (Step::Reconnecting(begun), Happened::Reconnected(ok)) => self.take_attempt(
                begun,
                ok,
                now,
            ),
            (Step::Flushing, Happened::Done) => {
                self.step = Step::Reading;
            },
            (Step::Reading, Happened::Panel(_)) => self.end(),
            (Step::Reading, Happened::PanelLost) => {
                self.step = Step::Reopening;
            },
            (Step::Reopening, Happened::Done) => {
                self.dirty = true;
                self.end();
            },
            (Step::Painting, Happened::Done) => {
                self.dirty = false;
                self.step = Step::Idle;
            },
            _ => {},
        }
        PollNote::Nothing
    }

    /// Takes what has become of the present demand.
    pub fn advance(&mut self, happened: Happened, now: Instant) -> (r: Report)
        requires
            now.is_reading(),
            suits(happened, old(self)@.step, old(self)@.task.stage),
        ensures
            exists|taken: Seq<bool>|
                {
                    &&& taken.len() == r.effects@.len()
                    &&& (ControllerTurn {
                        controller: final(self)@,
                        effects: effects(r.effects@),
                        skipped: r.skipped@,
                        note: r.note,
                    }) == #[trigger] old(self)@.after(happened, taken, now)
                },
    {
        match happened {
            Happened::Panel(Some(event)) => self.take_event(event, now),
            Happened::Worked(outcome) => self.take_outcome(outcome, now),
            other => {
                let ghost before = self@;
                let note = self.move_on(other, now);
                let out: Vec<Effect> = Vec::new();
                let r = Report { effects: out, skipped: Vec::new(), note };
                assert(effects(r.effects@) =~= Seq::<EffectView>::empty());
                assert(before.after(happened, Seq::empty(), now) == (ControllerTurn {
                    controller: self@,
                    effects: effects(r.effects@),
                    skipped: r.skipped@,
                    note: r.note,
                }));
                r
            },
        }
    }
}

proof fn lemma_applied_prefix(
    start: Surroundings,
    effects: Seq<EffectView>,
    taken: Seq<bool>,
    more: Seq<bool>,
    now: Instant,
)
    requires
        effects.len() <= taken.len() <= more.len(),
        forall|i: int| 0 <= i < taken.len() ==> taken[i] == more[i],
    ensures
        applied(start, effects, taken, now) == applied(start, effects, more, now),
    decreases effects.len(),
{
    if effects.len() > 0 {
        lemma_applied_prefix(start, effects.drop_last(), taken, more, now);
    }
}

} // verus!
