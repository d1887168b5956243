//! Runtime state of the main thread: the OBS connection, the recording state,
//! the flash overlay and the microphone state behind the logo indicator.
use vstd::prelude::*;

use crate::clock::{Clock, Instant};
use crate::config::{LogoConfig, LogoIndicator, ObsColors, RgbColor};
use crate::obs::{traffic_of, try_recv, try_send, ObsCommand, ObsEvent, ObsHandle, Traffic};

verus! {

/// The on and off phase of a blink together, in milliseconds.
pub const BLINK_CYCLE_MS: u64 = 200;

/// How long a confirmed microphone state can be relied on, in milliseconds.
pub const MIC_FRESH_MS: u64 = 1000;

/// What OBS is doing.
#[derive(Debug, Clone, Copy, PartialEq, Eq, Structural)]
pub enum ObsState {
    Idle,
    Recording,
    RecordingPaused,
}

/// A color that takes over the whole panel for a while.
#[derive(Debug, Clone, Copy, PartialEq, Eq, Structural)]
pub struct Flash {
    pub color: RgbColor,
    pub expires_at: Instant,
    /// Where present, the flash blinks between its color and off.
    pub blink: Option<BlinkConfig>,
}

#[derive(Debug, Clone, Copy, PartialEq, Eq, Structural)]
pub struct BlinkConfig {
    pub started_at: Instant,
    /// The on and off phase together, in milliseconds.
    pub cycle_ms: u64,
}

/// All LEDs off.
pub open spec fn black() -> RgbColor {
    RgbColor { r: 0, g: 0, b: 0 }
}

/// Whether a blink that began at `start` is in an on phase: on and off take
/// turns, each for half the cycle, beginning with on.
pub open spec fn blink_is_on(start: Instant, cycle_ms: u64, now: Instant) -> bool {
    let half: int = if cycle_ms / 2 >= 1 {
        (cycle_ms / 2) as int
    } else {
        1
    };
    (now.millis_after(start) / half) % 2 == 0
}

fn blink_on(start: Instant, cycle_ms: u64, now: Instant) -> (r: bool)
    ensures
        r == blink_is_on(start, cycle_ms, now),
{
    let half: u128 = if cycle_ms / 2 >= 1 {
        (cycle_ms / 2) as u128
    } else {
        1
    };
    (now.saturating_millis_since(start) / half) % 2 == 0
}

impl Flash {
    /// The flash of one color that lasts `duration_ms` from `now`.
    pub open spec fn solid(color: RgbColor, duration_ms: u64, now: Instant) -> Flash {
        Flash { color, expires_at: now.later(duration_ms as int), blink: None }
    }

    /// The blinking flash that lasts `duration_ms` from `now`.
    pub open spec fn blinking(color: RgbColor, duration_ms: u64, now: Instant) -> Flash {
        Flash {
            color,
            expires_at: now.later(duration_ms as int),
            blink: Some(BlinkConfig { started_at: now, cycle_ms: BLINK_CYCLE_MS }),
        }
    }

    /// The color that a flash shows at an instant.
    pub open spec fn color_at(self, now: Instant) -> RgbColor {
        match self.blink {
            None => self.color,
            Some(b) => if blink_is_on(b.started_at, b.cycle_ms, now) {
                self.color
            } else {
                black()
            },
        }
    }

    fn new_solid(color: RgbColor, duration_ms: u64, now: Instant) -> (r: Flash)
        requires
            now.is_reading(),
        ensures
            r == Flash::solid(color, duration_ms, now),
    {
        Flash { color, expires_at: now.plus_millis(duration_ms), blink: None }
    }

    fn new_blink(color: RgbColor, duration_ms: u64, now: Instant) -> (r: Flash)
        requires
            now.is_reading(),
        ensures
            r == Flash::blinking(color, duration_ms, now),
    {
        Flash {
            color,
            expires_at: now.plus_millis(duration_ms),
            blink: Some(BlinkConfig { started_at: now, cycle_ms: BLINK_CYCLE_MS }),
        }
    }

    /// The color to display at the time that `clock` shows. Two calls across
    /// a phase boundary of a blink give different colors.
    pub fn current_color(&self, clock: &Clock) -> (r: RgbColor)
        ensures
            exists|now: Instant| now.is_reading() && r == #[trigger] self.color_at(now),
    {
        let now = clock.now();
        self.current_color_at(now)
    }

    /// The color to display at an instant.
    pub fn current_color_at(&self, now: Instant) -> (r: RgbColor)
        ensures
            r == self.color_at(now),
    {
        match self.blink {
            None => self.color,
            Some(b) => if blink_on(b.started_at, b.cycle_ms, now) {
                self.color
            } else {
                RgbColor { r: 0, g: 0, b: 0 }
            },
        }
    }
}

/// What the LEDs depend on.
pub struct RuntimeView {
    pub connected: bool,
    pub state: ObsState,
    pub colors: ObsColors,
    pub flash: Option<Flash>,
    pub replay_buffer_active: Option<bool>,
    pub paused_use_breath: bool,
    pub mic_muted: bool,
    pub mic_confirmed_at: Instant,
    pub logo_cfg: LogoConfig,
    /// The clock by which the runtime goes.
    pub clock: Clock,
}

impl RuntimeView {
    /// Whether the microphone state has not been confirmed for too long.
    pub open spec fn mic_stale(self, now: Instant) -> bool {
        now.at_least_after(self.mic_confirmed_at, MIC_FRESH_MS as int)
    }

    /// The color that the logo indicator wants at an instant; `None` where
    /// there is nothing to indicate.
    pub open spec fn indicator_color(self, now: Instant) -> Option<RgbColor> {
        match self.logo_cfg.indicator {
            LogoIndicator::Off => None,
            LogoIndicator::Mic => Some(
                if self.mic_stale(now) {
                    if blink_is_on(self.mic_confirmed_at, BLINK_CYCLE_MS, now) {
                        self.logo_cfg.mic_unknown
                    } else {
                        black()
                    }
                } else if self.mic_muted {
                    self.logo_cfg.mic_muted
                } else {
                    self.logo_cfg.mic_unmuted
                },
            ),
            LogoIndicator::Replay => if !self.connected {
                None
            } else if self.replay_buffer_active == Some(true) {
                Some(self.logo_cfg.replay_active)
            } else {
                Some(self.logo_cfg.replay_inactive)
            },
        }
    }

    /// The state with the flash that acknowledges a success.
    pub open spec fn with_success_flash(self, now: Instant) -> RuntimeView {
        RuntimeView {
            flash: Some(
                Flash::solid(self.colors.success_flash, self.colors.flash_duration_ms, now),
            ),
            ..self
        }
    }

    /// The state with the flash that reports a failure.
    pub open spec fn with_error_flash(self, now: Instant) -> RuntimeView {
        RuntimeView {
            flash: Some(
                Flash::blinking(self.colors.error_flash, self.colors.flash_duration_ms, now),
            ),
            ..self
        }
    }

    /// The state after an event.
    pub open spec fn after(self, event: ObsEvent, now: Instant) -> RuntimeView {
        match event {
            ObsEvent::Connected => RuntimeView { connected: true, ..self },
            ObsEvent::Disconnected => RuntimeView {
                connected: false,
                replay_buffer_active: None,
                state: ObsState::Idle,
                ..self
            },
            ObsEvent::RecordingActive | ObsEvent::RecordingResumed => RuntimeView {
                state: ObsState::Recording,
                ..self
            },
            ObsEvent::RecordingPaused => RuntimeView { state: ObsState::RecordingPaused, ..self },
            ObsEvent::RecordingStopped => RuntimeView { state: ObsState::Idle, ..self },
            ObsEvent::ReplayBufferActive => RuntimeView {
                replay_buffer_active: Some(true),
                ..self
            },
            ObsEvent::ReplayBufferInactive => RuntimeView {
                replay_buffer_active: Some(false),
                ..self
            },
            ObsEvent::CommandSucceeded(cmd) => match cmd {
                ObsCommand::ToggleRecording | ObsCommand::PauseRecording => self,
                ObsCommand::SaveReplay | ObsCommand::SplitRecording => self.with_success_flash(now),
            },
            ObsEvent::CommandFailed(_, _) => self.with_error_flash(now),
            ObsEvent::CanvasMatchFailed(_) => self.with_error_flash(now),
        }
    }

    /// Whether an event asks for a repaint: where it sets a flash, where it
    /// reports that the connection is gone, and otherwise where it changes
    /// the state.
    pub open spec fn dirtied_by(self, event: ObsEvent) -> bool {
        match event {
            ObsEvent::Connected => !self.connected,
            ObsEvent::Disconnected => true,
            ObsEvent::RecordingActive | ObsEvent::RecordingResumed => self.state
                != ObsState::Recording,
            ObsEvent::RecordingPaused => self.state != ObsState::RecordingPaused,
            ObsEvent::RecordingStopped => self.state != ObsState::Idle,
            ObsEvent::ReplayBufferActive => self.replay_buffer_active != Some(true),
            ObsEvent::ReplayBufferInactive => self.replay_buffer_active != Some(false),
            ObsEvent::CommandSucceeded(cmd) => match cmd {
                ObsCommand::ToggleRecording | ObsCommand::PauseRecording => false,
                ObsCommand::SaveReplay | ObsCommand::SplitRecording => true,
            },
            ObsEvent::CommandFailed(_, _) => true,
            ObsEvent::CanvasMatchFailed(_) => true,
        }
    }

    /// The state after a row of events, each with the time of its arrival,
    /// and whether any of them asks for a repaint.
    pub open spec fn after_all(self, events: Seq<(ObsEvent, Instant)>) -> (RuntimeView, bool)
        decreases events.len(),
    {
        if events.len() == 0 {
            (self, false)
        } else {
            let (s, dirty) = self.after_all(events.drop_last());
            let (event, now) = events.last();
            (s.after(event, now), dirty || s.dirtied_by(event))
        }
    }

    /// The state once an expired flash is gone.
    pub open spec fn without_expired_flash(self, now: Instant) -> RuntimeView {
        match self.flash {
            Some(f) => if now.nanos >= f.expires_at.nanos {
                RuntimeView { flash: None, ..self }
            } else {
                self
            },
            None => self,
        }
    }

    /// Whether the flash asks for a repaint: it has just expired, or it blinks.
    pub open spec fn flash_wants_repaint(self, now: Instant) -> bool {
        match self.flash {
            Some(f) => now.nanos >= f.expires_at.nanos || f.blink is Some,
            None => false,
        }
    }

    /// Whether the logo shows the state of the microphone.
    pub open spec fn mic_indicator(self) -> bool {
        self.logo_cfg.indicator == LogoIndicator::Mic
    }

    /// Whether a confirmed state of the microphone changes what the logo
    /// shows.
    pub open spec fn mic_news(self, muted: bool, now: Instant) -> bool {
        self.mic_indicator() && (self.mic_muted != muted || self.mic_stale(now))
    }

    /// The state once the microphone state was confirmed.
    pub open spec fn with_mic(self, muted: bool, now: Instant) -> RuntimeView {
        RuntimeView { mic_muted: muted, mic_confirmed_at: now, ..self }
    }
}

/// The runtime state and the wires to the OBS thread.
pub struct ObsRuntime {
    /// The wires to the OBS thread, if there is one.
    pub handle: Option<ObsHandle>,
    /// The clock by which the runtime goes.
    pub clock: Clock,
    pub connected: bool,
    pub state: ObsState,
    pub colors: ObsColors,
    pub flash: Option<Flash>,
    /// Whether the replay buffer is running; `None` until OBS has told.
    pub replay_buffer_active: Option<bool>,
    /// Render a paused recording as a breath animation of the whole panel.
    pub paused_use_breath: bool,
    /// The state of the default microphone when it was last confirmed.
    pub mic_muted: bool,
    /// When the microphone state was last confirmed; at first, when the
    /// runtime was made.
    pub mic_confirmed_at: Instant,
    pub logo_cfg: LogoConfig,
}

impl View for ObsRuntime {
    type V = RuntimeView;

    open spec fn view(&self) -> RuntimeView {
        RuntimeView {
            connected: self.connected,
            state: self.state,
            colors: self.colors,
            flash: self.flash,
            replay_buffer_active: self.replay_buffer_active,
            paused_use_breath: self.paused_use_breath,
            mic_muted: self.mic_muted,
            mic_confirmed_at: self.mic_confirmed_at,
            logo_cfg: self.logo_cfg,
            clock: self.clock,
        }
    }
}

impl ObsRuntime {
    /// What has gone through the channels to and from the OBS thread; `None`
    /// where there is no such thread.
    pub open spec fn traffic(self) -> Option<Traffic> {
        traffic_of(self.handle)
    }

    /// The state before anything has happened. The microphone counts as
    /// confirmed unmuted at this moment.
    pub fn new(
        handle: Option<ObsHandle>,
        colors: ObsColors,
        paused_use_breath: bool,
        logo_cfg: LogoConfig,
    ) -> (r: ObsRuntime)
        ensures
            r.traffic() == traffic_of(handle),
            r@ == (RuntimeView {
                connected: false,
                state: ObsState::Idle,
                colors,
                flash: None,
                replay_buffer_active: None,
                paused_use_breath,
                mic_muted: false,
                mic_confirmed_at: r@.mic_confirmed_at,
                logo_cfg,
                clock: r@.clock,
            }),
            r@.mic_confirmed_at.is_reading(),
    {
        let clock = Clock::start();
        let now = clock.now();
        ObsRuntime {
            handle,
            clock,
            connected: false,
            state: ObsState::Idle,
            colors,
            flash: None,
            replay_buffer_active: None,
            paused_use_breath,
            mic_muted: false,
            mic_confirmed_at: now,
            logo_cfg,
        }
    }

    /// The time by which the runtime goes.
    pub fn now(&self) -> (r: Instant)
        ensures
            r.is_reading(),
    {
        self.clock.now()
    }

    /// Whether OBS is connected.
    pub fn connected(&self) -> (r: bool)
        ensures
            r == self@.connected,
    {
        self.connected
    }

    /// What OBS is doing.
    pub fn state(&self) -> (r: ObsState)
        ensures
            r == self@.state,
    {
        self.state
    }

    /// The configured colors.
    pub fn colors(&self) -> (r: ObsColors)
        ensures
            r == self@.colors,
    {
        self.colors
    }

    /// The flash that has not been cleared yet.
    pub fn flash(&self) -> (r: Option<Flash>)
        ensures
            r == self@.flash,
    {
        self.flash
    }

    /// Whether a paused recording is rendered as a breath animation.
    pub fn paused_use_breath(&self) -> (r: bool)
        ensures
            r == self@.paused_use_breath,
    {
        self.paused_use_breath
    }

    /// The color that the logo indicator wants right now.
    pub fn logo_indicator_color(&self) -> (r: Option<RgbColor>)
        ensures
            exists|now: Instant| now.is_reading() && r == #[trigger] self@.indicator_color(now),
    {
        let now = self.now();
        self.logo_indicator_color_at(now)
    }

    fn mic_is_stale(&self, now: Instant) -> (r: bool)
        ensures
            r == self@.mic_stale(now),
    {
        now.reached(self.mic_confirmed_at, MIC_FRESH_MS)
    }

    /// The color that the logo indicator wants at an instant, or `None` where
    /// no indicator is selected or it has nothing to show.
    pub fn logo_indicator_color_at(&self, now: Instant) -> (r: Option<RgbColor>)
        ensures
            r == self@.indicator_color(now),
    {
        match self.logo_cfg.indicator {
            LogoIndicator::Off => None,
            LogoIndicator::Mic => Some(
                if self.mic_is_stale(now) {
                    if blink_on(self.mic_confirmed_at, BLINK_CYCLE_MS, now) {
                        self.logo_cfg.mic_unknown
                    } else {
                        RgbColor { r: 0, g: 0, b: 0 }
                    }
                } else if self.mic_muted {
                    self.logo_cfg.mic_muted
                } else {
                    self.logo_cfg.mic_unmuted
                },
            ),
            LogoIndicator::Replay => {
                if !self.connected {
                    return None;
                }
                Some(
                    match self.replay_buffer_active {
                        Some(true) => self.logo_cfg.replay_active,
                        _ => self.logo_cfg.replay_inactive,
                    },
                )
            },
        }
    }

    /// Whether the microphone has to be polled to keep the logo accurate.
    pub fn mic_indicator_enabled(&self) -> (r: bool)
        ensures
            r == self@.mic_indicator(),
    {
        self.logo_cfg.indicator == LogoIndicator::Mic
    }

    /// Whether the logo blinks because the microphone state is unknown.
    pub fn mic_indicator_needs_repaint(&self, now: Instant) -> (r: bool)
        ensures
            r == (self@.mic_indicator() && self@.mic_stale(now)),
    {
        self.mic_indicator_enabled() && self.mic_is_stale(now)
    }

    /// Records a confirmed microphone state.
    pub fn set_mic_muted(&mut self, muted: bool, now: Instant)
        ensures
            final(self)@ == old(self)@.with_mic(muted, now),
            final(self).traffic() == old(self).traffic(),
    {
        self.mic_muted = muted;
        self.mic_confirmed_at = now;
    }

    /// Records a confirmed microphone state and tells whether the LEDs need a
    /// repaint: the indicator shows the microphone, and the state changed or
    /// was unknown until now.
    pub fn update_mic_muted(&mut self, muted: bool, now: Instant) -> (dirty: bool)
        ensures
            final(self)@ == old(self)@.with_mic(muted, now),
            final(self).traffic() == old(self).traffic(),
            dirty == old(self)@.mic_news(muted, now),
    {
        let dirty = self.mic_indicator_enabled() && (self.mic_muted != muted || self.mic_is_stale(
            now,
        ));
        self.set_mic_muted(muted, now);
        dirty
    }

    /// Applies an event that arrives now.
    pub fn apply_event(&mut self, event: ObsEvent) -> (dirty: bool)
        ensures
            exists|now: Instant|
                now.is_reading() && final(self)@ == #[trigger] old(self)@.after(event, now),
            dirty == old(self)@.dirtied_by(event),
            final(self).traffic() == old(self).traffic(),
    {
        let now = self.now();
        self.apply_event_at(event, now)
    }

    /// Applies an event that arrives at an instant. Tells whether the LEDs
    /// need a repaint.
    pub fn apply_event_at(&mut self, event: ObsEvent, now: Instant) -> (dirty: bool)
        requires
            now.is_reading(),
        ensures
            final(self)@ == old(self)@.after(event, now),
            dirty == old(self)@.dirtied_by(event),
            final(self).traffic() == old(self).traffic(),
    {
        match event {
            ObsEvent::Connected => {
                let was_disconnected = !self.connected;
                self.connected = true;
                was_disconnected
            },
            ObsEvent::ReplayBufferActive => self.set_replay_buffer(true),
            ObsEvent::ReplayBufferInactive => self.set_replay_buffer(false),
            ObsEvent::Disconnected => {
                self.connected = false;
                self.replay_buffer_active = None;
                let _ = self.transition_to(ObsState::Idle);
                true
            },
            ObsEvent::RecordingActive | ObsEvent::RecordingResumed => self.transition_to(
                ObsState::Recording,
            ),
            ObsEvent::RecordingPaused => self.transition_to(ObsState::RecordingPaused),
            ObsEvent::RecordingStopped => self.transition_to(ObsState::Idle),
            ObsEvent::CommandSucceeded(cmd) => match cmd {
                // The state change that follows is the acknowledgement.
                ObsCommand::ToggleRecording | ObsCommand::PauseRecording => false,
                ObsCommand::SaveReplay | ObsCommand::SplitRecording => {
                    self.set_success_flash(now);
                    true
                },
            },
            ObsEvent::CommandFailed(_, _) => {
                self.set_error_flash(now);
                true
            },
            ObsEvent::CanvasMatchFailed(_) => {
                self.set_error_flash(now);
                true
            },
        }
    }

    fn set_replay_buffer(&mut self, active: bool) -> (changed: bool)
        ensures
            final(self)@ == (RuntimeView { replay_buffer_active: Some(active), ..old(self)@ }),
            changed == (old(self)@.replay_buffer_active != Some(active)),
            final(self).traffic() == old(self).traffic(),
    {
        let changed = match self.replay_buffer_active {
            Some(was) => was != active,
            None => true,
        };
        self.replay_buffer_active = Some(active);
        changed
    }

    fn transition_to(&mut self, new_state: ObsState) -> (changed: bool)
        ensures
            final(self)@ == (RuntimeView { state: new_state, ..old(self)@ }),
            changed == (old(self)@.state != new_state),
            final(self).traffic() == old(self).traffic(),
    {
        if self.state != new_state {
            self.state = new_state;
            true
        } else {
            false
        }
    }

    fn set_success_flash(&mut self, now: Instant)
        requires
            now.is_reading(),
        ensures
            final(self)@ == old(self)@.with_success_flash(now),
            final(self).traffic() == old(self).traffic(),
    {
        self.flash = Some(
            Flash::new_solid(self.colors.success_flash, self.colors.flash_duration_ms, now),
        );
    }

    fn set_error_flash(&mut self, now: Instant)
        requires
            now.is_reading(),
        ensures
            final(self)@ == old(self)@.with_error_flash(now),
            final(self).traffic() == old(self).traffic(),
    {
        self.flash = Some(
            Flash::new_blink(self.colors.error_flash, self.colors.flash_duration_ms, now),
        );
    }

    fn next_event(&mut self) -> (r: Option<ObsEvent>)
        ensures
            final(self)@ == old(self)@,
            match old(self).traffic() {
                Some(t) => final(self).traffic() == Some(Traffic { events: t.events.push(r), ..t }),
                None => r is None && final(self).traffic() is None,
            },
    {
        match &mut self.handle {
            Some(h) => try_recv(&mut h.events_rx),
            None => None,
        }
    }

    /// Applies the events that have arrived from the OBS thread, one after
    /// the other, until none is left. Tells whether any of them asks for a
    /// repaint.
    pub fn drain_events(&mut self) -> (dirty: bool)
        ensures
            exists|events: Seq<(ObsEvent, Instant)>|
                {
                    &&& (final(self)@, dirty) == #[trigger] old(self)@.after_all(events)
                    &&& final(self).traffic() == after_draining(old(self).traffic(), events)
                    &&& timed(events)
                    &&& old(self).traffic() is None ==> events.len() == 0
                },
    {
        let ghost start = self@;
        let ghost before = self.traffic();
        let ghost mut events: Seq<(ObsEvent, Instant)> = Seq::empty();
        let mut dirty = false;
        let mut budget: u64 = u64::MAX;
        assert(arrivals(events) =~= Seq::<Option<ObsEvent>>::empty());
        proof {
            if let Some(t) = before {
                assert(t.events + arrivals(events) =~= t.events);
            }
        }
        while budget > 0
            invariant
                (self@, dirty) == start.after_all(events),
                start == old(self)@,
                before == old(self).traffic(),
                timed(events),
                events.len() + budget == u64::MAX,
                match before {
                    Some(t) => self.traffic() == Some(
                        Traffic { events: t.events + arrivals(events), ..t },
                    ),
                    None => self.traffic() is None && events.len() == 0,
                },
            decreases budget,
        {
            match self.next_event() {
                None => {
                    proof {
                        if let Some(t) = before {
                            assert((t.events + arrivals(events)).push(None) =~= t.events
                                + arrivals(events).push(None));
                        }
                        assert(self.traffic() == after_draining(before, events));
                    }
                    return dirty;
                },
                Some(event) => {
                    let now = self.now();
                    proof {
                        let longer = events.push((event, now));
                        assert(longer.drop_last() =~= events);
                        assert(arrivals(longer) =~= arrivals(events).push(Some(event)));
                        if let Some(t) = before {
                            assert((t.events + arrivals(events)).push(Some(event)) =~= t.events
                                + arrivals(longer));
                        }
                        events = longer;
                    }
                    let changed = self.apply_event_at(event, now);
                    dirty = dirty || changed;
                },
            }
            budget -= 1;
        }
        assert(self.traffic() == after_draining(before, events));
        dirty
    }

    /// Clears an expired flash. Tells whether the LEDs need a repaint: the
    /// flash has just expired, or it blinks.
    pub fn expire_flash_at(&mut self, now: Instant) -> (dirty: bool)
        ensures
            final(self)@ == old(self)@.without_expired_flash(now),
            dirty == old(self)@.flash_wants_repaint(now),
            final(self).traffic() == old(self).traffic(),
    {
        match self.flash {
            Some(f) => if now.nanos >= f.expires_at.nanos {
                self.flash = None;
                true
            } else {
                f.blink.is_some()
            },
            None => false,
        }
    }

    /// [`ObsRuntime::expire_flash_at`] for the present.
    pub fn expire_flash(&mut self) -> (dirty: bool)
        ensures
            exists|now: Instant|
                now.is_reading() && final(self)@ == #[trigger] old(self)@.without_expired_flash(now)
                    && dirty == old(self)@.flash_wants_repaint(now),
            final(self).traffic() == old(self).traffic(),
    {
        let now = self.now();
        self.expire_flash_at(now)
    }

    /// What becomes of a command: `sent` tells whether the channel took it,
    /// and is `None` where it was not tried. Tells whether the LEDs need a
    /// repaint, which is where the command did not get through.
    pub fn dispatched_at(&mut self, sent: Option<bool>, now: Instant) -> (dirty: bool)
        requires
            now.is_reading(),
        ensures
            dirty == (sent != Some(true)),
            final(self)@ == if sent == Some(true) {
                old(self)@
            } else {
                old(self)@.with_error_flash(now)
            },
            final(self).traffic() == old(self).traffic(),
    {
        match sent {
            Some(true) => false,
            _ => {
                self.set_error_flash(now);
                true
            },
        }
    }

    /// Sends a command to the OBS thread. Where there is no connection, or
    /// the channel does not take the command, an error flash is set instead.
    pub fn dispatch_at(&mut self, cmd: ObsCommand, now: Instant) -> (dirty: bool)
        requires
            now.is_reading(),
        ensures
            final(self)@ == if dirty {
                old(self)@.with_error_flash(now)
            } else {
                old(self)@
            },
            final(self).traffic() == after_dispatch(
                old(self).traffic(),
                old(self)@.connected,
                cmd,
                !dirty,
            ),
            !reachable(old(self).traffic(), old(self)@.connected) ==> dirty,
    {
        let mut sent: Option<bool> = None;
        if self.connected {
            if let Some(h) = &mut self.handle {
                sent = Some(try_send(&mut h.commands_tx, cmd));
            }
        }
        self.dispatched_at(sent, now)
    }

    /// [`ObsRuntime::dispatch_at`] for the present.
    pub fn dispatch(&mut self, cmd: ObsCommand) -> (dirty: bool)
        ensures
            dirty ==> exists|now: Instant|
                now.is_reading() && final(self)@ == #[trigger] old(self)@.with_error_flash(now),
            !dirty ==> final(self)@ == old(self)@,
            final(self).traffic() == after_dispatch(
                old(self).traffic(),
                old(self)@.connected,
                cmd,
                !dirty,
            ),
            !reachable(old(self).traffic(), old(self)@.connected) ==> dirty,
    {
        let now = self.now();
        self.dispatch_at(cmd, now)
    }
}

/// Whether every event comes with an instant that the clock has shown.
pub open spec fn timed(events: Seq<(ObsEvent, Instant)>) -> bool {
    forall|i: int| 0 <= i < events.len() ==> (#[trigger] events[i]).1.is_reading()
}

/// The outcomes of the attempts that got events.
pub open spec fn arrivals(events: Seq<(ObsEvent, Instant)>) -> Seq<Option<ObsEvent>> {
    Seq::new(events.len(), |i: int| Some(events[i].0))
}

/// The traffic once these events, and no others, have been taken out of the
/// channel, until it had none left. After more events than a counter holds it
/// may have some.
pub open spec fn after_draining(
    before: Option<Traffic>,
    events: Seq<(ObsEvent, Instant)>,
) -> Option<Traffic> {
    match before {
        Some(t) => Some(
            Traffic {
                events: if events.len() < u64::MAX {
                    t.events + arrivals(events).push(None)
                } else {
                    t.events + arrivals(events)
                },
                ..t
            },
        ),
        None => None,
    }
}

/// Whether a command is handed to the OBS thread at all.
pub open spec fn reachable(traffic: Option<Traffic>, connected: bool) -> bool {
    traffic is Some && connected
}

/// The traffic once a command was dispatched.
pub open spec fn after_dispatch(
    before: Option<Traffic>,
    connected: bool,
    cmd: ObsCommand,
    taken: bool,
) -> Option<Traffic> {
    match before {
        Some(t) => if connected {
            Some(Traffic { commands: t.commands.push((cmd, taken)), ..t })
        } else {
            before
        },
        None => before,
    }
}

/// An event that asks for no repaint changes nothing that the LEDs depend on.
pub proof fn law_clean_event_changes_nothing(s: RuntimeView, event: ObsEvent, now: Instant)
    requires
        !s.dirtied_by(event),
    ensures
        s.after(event, now) == s,
{
}

/// A row of events that asks for no repaint changes nothing that the LEDs
/// depend on.
pub proof fn law_clean_events_change_nothing(s: RuntimeView, events: Seq<(ObsEvent, Instant)>)
    requires
        !s.after_all(events).1,
    ensures
        s.after_all(events).0 == s,
    decreases events.len(),
{
    if events.len() > 0 {
        law_clean_events_change_nothing(s, events.drop_last());
        let (event, now) = events.last();
        law_clean_event_changes_nothing(s, event, now);
    }
}

/// Events change the connection, the recording and replay state and the
/// flash; the configuration, the clock and the microphone state stay as they
/// are.
pub proof fn law_events_keep_configuration(s: RuntimeView, events: Seq<(ObsEvent, Instant)>)
    ensures
        s.after_all(events).0.colors == s.colors,
        s.after_all(events).0.logo_cfg == s.logo_cfg,
        s.after_all(events).0.paused_use_breath == s.paused_use_breath,
        s.after_all(events).0.mic_muted == s.mic_muted,
        s.after_all(events).0.mic_confirmed_at == s.mic_confirmed_at,
        s.after_all(events).0.clock == s.clock,
    decreases events.len(),
{
    if events.len() > 0 {
        law_events_keep_configuration(s, events.drop_last());
    }
}

/// The recording state that an event reports, where it reports one.
pub open spec fn reported_state(event: ObsEvent) -> Option<ObsState> {
    match event {
        ObsEvent::RecordingActive | ObsEvent::RecordingResumed => Some(ObsState::Recording),
        ObsEvent::RecordingPaused => Some(ObsState::RecordingPaused),
        ObsEvent::RecordingStopped | ObsEvent::Disconnected => Some(ObsState::Idle),
        _ => None,
    }
}

/// The last report wins: after a backlog of events the recording state is the
/// one that the last event with a report of it gave.
pub proof fn law_last_report_wins(s: RuntimeView, events: Seq<(ObsEvent, Instant)>, last: int)
    requires
        0 <= last < events.len(),
        reported_state(events[last].0) is Some,
        forall|i: int| last < i < events.len() ==> reported_state(#[trigger] events[i].0) is None,
    ensures
        s.after_all(events).0.state == reported_state(events[last].0)->Some_0,
    decreases events.len(),
{
    let front = events.drop_last();
    if last < events.len() - 1 {
        assert(front[last] == events[last]);
        assert forall|i: int| last < i < front.len() implies reported_state(
            #[trigger] front[i].0,
        ) is None by {
            assert(front[i] == events[i]);
        }
        law_last_report_wins(s, front, last);
        assert(reported_state(events[events.len() - 1].0) is None);
    }
}

/// A lost connection leaves no trace of OBS: not connected, idle, and the
/// state of the replay buffer unknown, so that a replay indicator shows
/// nothing. It always asks for a repaint.
pub proof fn law_disconnect_resets(s: RuntimeView, now: Instant, later: Instant)
    ensures
        s.dirtied_by(ObsEvent::Disconnected),
        ({
            let d = s.after(ObsEvent::Disconnected, now);
            &&& !d.connected
            &&& d.state == ObsState::Idle
            &&& d.replay_buffer_active is None
            &&& s.logo_cfg.indicator == LogoIndicator::Replay ==> d.indicator_color(later) is None
        }),
{
}

/// What the logo says of the microphone can be trusted. Where the configured
/// colors can be told apart, the unmuted color is shown only while the
/// microphone was confirmed unmuted less than a second ago, and the muted
/// color only while it was confirmed muted less than a second ago.
pub proof fn law_mic_indicator_is_trustworthy(s: RuntimeView, now: Instant)
    requires
        s.logo_cfg.indicator == LogoIndicator::Mic,
        s.logo_cfg.mic_muted != s.logo_cfg.mic_unmuted,
        s.logo_cfg.mic_unmuted != s.logo_cfg.mic_unknown,
        s.logo_cfg.mic_unmuted != black(),
        s.logo_cfg.mic_muted != s.logo_cfg.mic_unknown,
        s.logo_cfg.mic_muted != black(),
    ensures
        s.indicator_color(now) == Some(s.logo_cfg.mic_unmuted) <==> !s.mic_muted && now.nanos
            < s.mic_confirmed_at.nanos + 1_000_000_000,
        s.indicator_color(now) == Some(s.logo_cfg.mic_muted) <==> s.mic_muted && now.nanos
            < s.mic_confirmed_at.nanos + 1_000_000_000,
{
}

/// While the microphone state is unknown the logo blinks: half a cycle after
/// it shows the color for it, it is dark, and the other way round.
pub proof fn law_unknown_mic_blinks(s: RuntimeView, now: Instant)
    requires
        s.logo_cfg.indicator == LogoIndicator::Mic,
        s.mic_stale(now),
        now.is_reading(),
    ensures
        ({
            let half_cycle_on = now.later((BLINK_CYCLE_MS / 2) as int);
            ||| s.indicator_color(now) == Some(s.logo_cfg.mic_unknown) && s.indicator_color(
                half_cycle_on,
            ) == Some(black())
            ||| s.indicator_color(now) == Some(black()) && s.indicator_color(half_cycle_on) == Some(
                s.logo_cfg.mic_unknown,
            )
        }),
{
    lemma_blink_alternates(s.mic_confirmed_at, now);
}

/// Half a cycle on, a blink is in its other phase.
proof fn lemma_blink_alternates(start: Instant, now: Instant)
    requires
        start.nanos <= now.nanos,
        now.is_reading(),
    ensures
        blink_is_on(start, BLINK_CYCLE_MS, now.later((BLINK_CYCLE_MS / 2) as int)) != blink_is_on(
            start,
            BLINK_CYCLE_MS,
            now,
        ),
{
    let then = now.later(100);
    assert(then.nanos == now.nanos + 100_000_000);
    let a = (now.nanos - start.nanos) as int;
    assert(then.millis_after(start) == (a + 100_000_000) / 1_000_000);
    assert(now.millis_after(start) == a / 1_000_000);
    assert((a + 100_000_000) / 1_000_000 == a / 1_000_000 + 100);
    let m = a / 1_000_000;
    assert((m + 100) / 100 == m / 100 + 1);
}

/// A failure flash blinks: half a cycle after its color it is dark.
pub proof fn law_failure_flash_blinks(color: RgbColor, duration_ms: u64, start: Instant, now: Instant)
    requires
        start.nanos <= now.nanos,
        now.is_reading(),
    ensures
        ({
            let f = Flash::blinking(color, duration_ms, start);
            let half_cycle_on = now.later((BLINK_CYCLE_MS / 2) as int);
            ||| f.color_at(now) == color && f.color_at(half_cycle_on) == black()
            ||| f.color_at(now) == black() && f.color_at(half_cycle_on) == color
        }),
        Flash::blinking(color, duration_ms, start).color_at(start) == color,
{
    lemma_blink_alternates(start, now);
}

/// A flash stays for exactly its duration: it is kept before that, and gone
/// from then on.
pub proof fn law_flash_lasts_for_its_duration(s: RuntimeView, set: Instant, now: Instant)
    requires
        set.is_reading(),
    ensures
        now.nanos < set.nanos + s.colors.flash_duration_ms * 1_000_000
            ==> s.with_success_flash(set).without_expired_flash(now) == s.with_success_flash(set)
            && s.with_error_flash(set).without_expired_flash(now) == s.with_error_flash(set),
        now.nanos >= set.nanos + s.colors.flash_duration_ms * 1_000_000
            ==> s.with_success_flash(set).without_expired_flash(now).flash is None
            && s.with_error_flash(set).without_expired_flash(now).flash is None,
{
    assert(set.later(s.colors.flash_duration_ms as int).nanos == set.nanos
        + s.colors.flash_duration_ms * 1_000_000);
}

/// What each event changes: the connection, the state of the recording and the
/// state of the replay buffer become what the event says, and nothing else
/// changes but the flash.
pub proof fn law_events_say_what_they_change(s: RuntimeView, event: ObsEvent, now: Instant)
    ensures
        ({
            let t = s.after(event, now);
            &&& t.connected == match event {
                ObsEvent::Connected => true,
                ObsEvent::Disconnected => false,
                _ => s.connected,
            }
            &&& t.state == match event {
                ObsEvent::RecordingActive => ObsState::Recording,
                ObsEvent::RecordingResumed => ObsState::Recording,
                ObsEvent::RecordingPaused => ObsState::RecordingPaused,
                ObsEvent::RecordingStopped => ObsState::Idle,
                ObsEvent::Disconnected => ObsState::Idle,
                _ => s.state,
            }
            &&& t.replay_buffer_active == match event {
                ObsEvent::ReplayBufferActive => Some(true),
                ObsEvent::ReplayBufferInactive => Some(false),
                ObsEvent::Disconnected => None,
                _ => s.replay_buffer_active,
            }
            &&& t == (RuntimeView {
                connected: t.connected,
                state: t.state,
                replay_buffer_active: t.replay_buffer_active,
                flash: t.flash,
                ..s
            })
        }),
{
}

/// A command that failed and a canvas that could not be matched let the panel
/// blink in the color of failure; a saved replay and a split file let it flash
/// in that of success. A command whose success shows in the state anyway, and
/// any other event, leaves the flash alone. The flash lasts for the configured
/// duration.
pub proof fn law_outcomes_flash_in_their_color(s: RuntimeView, event: ObsEvent, now: Instant)
    requires
        now.is_reading(),
    ensures
        ({
            let t = s.after(event, now);
            let failed = event is CommandFailed || event is CanvasMatchFailed;
            let done = event == ObsEvent::CommandSucceeded(ObsCommand::SaveReplay) || event
                == ObsEvent::CommandSucceeded(ObsCommand::SplitRecording);
            &&& failed ==> t.flash is Some && t.flash->Some_0.color == s.colors.error_flash
                && t.flash->Some_0.blink is Some
            &&& done ==> t.flash is Some && t.flash->Some_0.color == s.colors.success_flash
                && t.flash->Some_0.blink is None
            &&& failed || done ==> t.flash->Some_0.expires_at.nanos == now.nanos
                + s.colors.flash_duration_ms * 1_000_000
            &&& !failed && !done ==> t.flash == s.flash
        }),
{
}

/// A repaint is asked for only where there is something new: a flash, the loss
/// of the connection, or a change of the state.
pub proof fn law_repaints_have_a_reason(s: RuntimeView, event: ObsEvent, now: Instant)
    ensures
        s.dirtied_by(event) ==> {
            ||| s.after(event, now) != s
            ||| event == ObsEvent::Disconnected
            ||| event is CommandFailed
            ||| event is CanvasMatchFailed
            ||| event == ObsEvent::CommandSucceeded(ObsCommand::SaveReplay)
            ||| event == ObsEvent::CommandSucceeded(ObsCommand::SplitRecording)
        },
{
}

/// The first tenth of a second of a blink is lit, the second is dark, and it
/// goes on like that: what is shown is shown again after a fifth of a second.
pub proof fn law_blinks_last_a_tenth_of_a_second(color: RgbColor, ms: u64, start: Instant, now: Instant)
    requires
        start.nanos <= now.nanos,
        now.is_reading(),
    ensures
        ({
            let f = Flash::blinking(color, ms, start);
            &&& now.nanos < start.nanos + 100_000_000 ==> f.color_at(now) == color
            &&& start.nanos + 100_000_000 <= now.nanos < start.nanos + 200_000_000 ==> f.color_at(
                now,
            ) == (RgbColor { r: 0, g: 0, b: 0 })
            &&& f.color_at(Instant { nanos: (now.nanos + 200_000_000) as u128 }) == f.color_at(now)
        }),
        Flash::solid(color, ms, start).color_at(now) == color,
{
    let a = (now.nanos - start.nanos) as int;
    let then = Instant { nanos: (now.nanos + 200_000_000) as u128 };
    assert(then.nanos == now.nanos + 200_000_000);
    assert(then.millis_after(start) == (a + 200_000_000) / 1_000_000);
    assert(now.millis_after(start) == a / 1_000_000);
    assert((a + 200_000_000) / 1_000_000 == a / 1_000_000 + 200);
    let m = a / 1_000_000;
    assert((m + 200) / 100 == m / 100 + 2);
}

/// The replay indicator has the color of a running buffer exactly where OBS has
/// told that it runs, that of a stopped one otherwise, and none without a
/// connection. Without an indicator the logo has no color of its own.
pub proof fn law_replay_indicator_shows_the_buffer(s: RuntimeView, now: Instant)
    ensures
        s.logo_cfg.indicator == LogoIndicator::Replay && s.connected && s.replay_buffer_active
            == Some(true) ==> s.indicator_color(now) == Some(s.logo_cfg.replay_active),
        s.logo_cfg.indicator == LogoIndicator::Replay && s.connected && s.replay_buffer_active
            != Some(true) ==> s.indicator_color(now) == Some(s.logo_cfg.replay_inactive),
        s.logo_cfg.indicator == LogoIndicator::Replay && !s.connected ==> s.indicator_color(now)
            is None,
        s.logo_cfg.indicator == LogoIndicator::Off ==> s.indicator_color(now) is None,
{
}

/// The microphone indicator shows the muted or unmuted color for a second after
/// a confirmation, then the unknown one or nothing, in turns of a tenth of a
/// second that are counted from the confirmation.
pub proof fn law_mic_indicator_follows_the_confirmation(s: RuntimeView, now: Instant)
    requires
        s.logo_cfg.indicator == LogoIndicator::Mic,
        s.mic_confirmed_at.nanos <= now.nanos,
    ensures
        ({
            let since = now.nanos - s.mic_confirmed_at.nanos;
            &&& since < 1_000_000_000 ==> s.indicator_color(now) == Some(
                if s.mic_muted {
                    s.logo_cfg.mic_muted
                } else {
                    s.logo_cfg.mic_unmuted
                },
            )
            &&& 1_000_000_000 <= since < 1_100_000_000 ==> s.indicator_color(now) == Some(
                s.logo_cfg.mic_unknown,
            )
            &&& 1_100_000_000 <= since < 1_200_000_000 ==> s.indicator_color(now) == Some(
                RgbColor { r: 0, g: 0, b: 0 },
            )
        }),
{
    let since = (now.nanos - s.mic_confirmed_at.nanos) as int;
    if 1_000_000_000 <= since < 1_100_000_000 {
        assert(1000 <= since / 1_000_000 < 1100);
        assert((since / 1_000_000) / 100 == 10);
    }
    if 1_100_000_000 <= since < 1_200_000_000 {
        assert(1100 <= since / 1_000_000 < 1200);
        assert((since / 1_000_000) / 100 == 11);
    }
}

/// A confirmed microphone state is recorded with its time, and is news exactly
/// where the logo shows the microphone and showed something else.
pub proof fn law_confirmed_microphones_are_recorded(s: RuntimeView, muted: bool, now: Instant)
    ensures
        s.with_mic(muted, now) == (RuntimeView { mic_muted: muted, mic_confirmed_at: now, ..s }),
        s.mic_news(muted, now) <==> s.logo_cfg.indicator == LogoIndicator::Mic && (s.mic_muted
            != muted || now.nanos >= s.mic_confirmed_at.nanos + 1_000_000_000),
{
}

/// A flash asks for a repaint when its time is over, and all the time where it
/// blinks; it is gone exactly when its time is over.
pub proof fn law_flashes_expire_in_time(s: RuntimeView, now: Instant)
    ensures
        s.flash is None ==> !s.flash_wants_repaint(now) && s.without_expired_flash(now) == s,
        s.flash matches Some(f) ==> {
            &&& s.flash_wants_repaint(now) <==> now.nanos >= f.expires_at.nanos || f.blink is Some
            &&& s.without_expired_flash(now) == (RuntimeView {
                flash: if now.nanos >= f.expires_at.nanos {
                    None
                } else {
                    Some(f)
                },
                ..s
            })
        },
{
}

/// A command is offered to the OBS thread once, and only where there is one and
/// it is connected; nothing else passes through the channels then.
pub proof fn law_commands_are_offered_once(
    before: Option<Traffic>,
    connected: bool,
    cmd: ObsCommand,
    taken: bool,
)
    ensures
        reachable(before, connected) <==> before is Some && connected,
        before is Some && connected ==> after_dispatch(before, connected, cmd, taken) == Some(
            Traffic {
                commands: before->Some_0.commands.push((cmd, taken)),
                events: before->Some_0.events,
            },
        ),
        before is None || !connected ==> after_dispatch(before, connected, cmd, taken) == before,
{
}

/// All events that have arrived are taken out of the channel, each of them once
/// and in their order, until there is none left; no command is touched.
pub proof fn law_all_events_are_taken(before: Traffic, events: Seq<(ObsEvent, Instant)>)
    requires
        events.len() < u64::MAX,
    ensures
        after_draining(None, events) is None,
        after_draining(Some(before), events) is Some,
        ({
            let after = after_draining(Some(before), events)->Some_0;
            let n = before.events.len() as int;
            &&& after.commands == before.commands
            &&& after.events.len() == n + events.len() + 1
            &&& after.events.take(n) == before.events
            &&& forall|i: int|
                0 <= i < events.len() ==> #[trigger] after.events[n + i] == Some(events[i].0)
            &&& after.events.last() is None
        }),
{
    let after = after_draining(Some(before), events)->Some_0;
    assert(after.events.take(before.events.len() as int) =~= before.events);
}

} // verus!
