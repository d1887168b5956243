//! When the microphone is polled, and when a lost connection to PulseAudio is
//! tried again.
use vstd::prelude::*;

use crate::backoff::{Backoff, BackoffView};
use crate::clock::Instant;
use crate::runtime::ObsRuntime;

verus! {

/// How often the microphone is polled, in milliseconds.
pub const POLL_INTERVAL_MS: u64 = 250;

/// The shortest wait before a new attempt to reach PulseAudio, in seconds.
pub const AUDIO_BACKOFF_INITIAL_SECS: u64 = 2;

/// The longest wait before a new attempt to reach PulseAudio, in seconds.
pub const AUDIO_BACKOFF_MAX_SECS: u64 = 5;

/// The shortest wait before a new attempt to open the panel, in seconds.
pub const PANEL_BACKOFF_INITIAL_SECS: u64 = 2;

/// The longest wait before a new attempt to open the panel, in seconds.
pub const PANEL_BACKOFF_MAX_SECS: u64 = 30;

/// The waits before the attempts to open a panel that went away. There is one
/// before the first attempt too, so a panel that opens and fails at once
/// cannot keep the loop busy.
pub fn reconnect_panel() -> (r: Backoff)
    ensures
        r@ == BackoffView::fresh(PANEL_BACKOFF_INITIAL_SECS as nat, PANEL_BACKOFF_MAX_SECS as nat),
{
    Backoff::new(PANEL_BACKOFF_INITIAL_SECS, PANEL_BACKOFF_MAX_SECS)
}

/// What is worth a line in the log after a poll.
#[derive(Debug, Clone, Copy, PartialEq, Eq, Structural)]
pub enum PollNote {
    Nothing,
    /// The first poll of a row failed.
    FirstFailure,
    /// A poll succeeded after a row that failed for about so long.
    Recovered { outage_ms: u64 },
}

/// The polls of the default microphone, so that the logo follows changes that
/// are made elsewhere.
#[derive(Debug, Clone, Copy, PartialEq, Eq, Structural)]
pub struct MicPoller {
    /// When the microphone was last polled; `None` before the first poll.
    pub last_poll: Option<Instant>,
    /// How many polls in a row have failed.
    pub failures: u32,
}

impl MicPoller {
    /// Whether it is time for a poll: at once at first, then after every
    /// interval.
    pub open spec fn is_due(self, now: Instant) -> bool {
        match self.last_poll {
            Some(t) => now.at_least_after(t, POLL_INTERVAL_MS as int),
            None => true,
        }
    }

    /// After a poll.
    pub open spec fn after(self, outcome: Option<bool>) -> MicPoller {
        MicPoller {
            failures: match outcome {
                Some(_) => 0u32,
                None => if self.failures < u32::MAX {
                    (self.failures + 1) as u32
                } else {
                    u32::MAX
                },
            },
            ..self
        }
    }

    /// What is worth a line in the log after a poll.
    pub open spec fn note(self, outcome: Option<bool>) -> PollNote {
        match outcome {
            Some(_) => if self.failures > 0 {
                PollNote::Recovered { outage_ms: (POLL_INTERVAL_MS * self.failures) as u64 }
            } else {
                PollNote::Nothing
            },
            None => if self.failures == 0 {
                PollNote::FirstFailure
            } else {
                PollNote::Nothing
            },
        }
    }

    /// Before the first poll.
    pub fn new() -> (r: MicPoller)
        ensures
            r == (MicPoller { last_poll: None, failures: 0 }),
    {
        MicPoller { last_poll: None, failures: 0 }
    }

    /// Whether the microphone is to be polled now. If so, the interval starts
    /// anew.
    pub fn tick(&mut self, obs: &ObsRuntime, now: Instant) -> (due: bool)
        ensures
            due == (obs@.mic_indicator() && old(self).is_due(now)),
            *final(self) == if due {
                MicPoller { last_poll: Some(now), ..*old(self) }
            } else {
                *old(self)
            },
    {
        if !obs.mic_indicator_enabled() {
            return false;
        }
        let due = match self.last_poll {
            Some(t) => now.reached(t, POLL_INTERVAL_MS),
            None => true,
        };
        if due {
            self.last_poll = Some(now);
        }
        due
    }

    /// Takes the outcome of a poll: the mute state, or nothing where the poll
    /// failed. Tells whether the LEDs need a repaint. A poll that finds nothing
    /// new is recorded as well, for it confirms the state.
    pub fn polled(&mut self, obs: &mut ObsRuntime, outcome: Option<bool>, now: Instant) -> (r: (
        bool,
        PollNote,
    ))
        ensures
            *final(self) == old(self).after(outcome),
            r.1 == old(self).note(outcome),
            match outcome {
                Some(muted) => final(obs)@ == old(obs)@.with_mic(muted, now) && r.0
                    == old(obs)@.mic_news(muted, now),
                None => final(obs)@ == old(obs)@ && !r.0,
            },
            final(obs).traffic() == old(obs).traffic(),
    {
        match outcome {
            Some(muted) => {
                let note = if self.failures > 0 {
                    PollNote::Recovered { outage_ms: POLL_INTERVAL_MS * self.failures as u64 }
                } else {
                    PollNote::Nothing
                };
                self.failures = 0;
                (obs.update_mic_muted(muted, now), note)
            },
            None => {
                let note = if self.failures == 0 {
                    PollNote::FirstFailure
                } else {
                    PollNote::Nothing
                };
                if self.failures < u32::MAX {
                    self.failures = self.failures + 1;
                }
                (false, note)
            },
        }
    }

    /// Takes the outcome of a query out of turn. Only a query that succeeds
    /// starts the interval anew, so one that came too early is repeated at
    /// once.
    pub fn refresh_now(&mut self, obs: &mut ObsRuntime, outcome: Option<bool>, now: Instant)
        ensures
            match outcome {
                Some(muted) => {
                    &&& *final(self) == (MicPoller { last_poll: Some(now), ..*old(self) })
                    &&& final(obs)@ == old(obs)@.with_mic(muted, now)
                },
                None => *final(self) == *old(self) && final(obs)@ == old(obs)@,
            },
            final(obs).traffic() == old(obs).traffic(),
    {
        if refresh_mic_muted(obs, outcome, now) {
            self.last_poll = Some(now);
        }
    }
}

/// Records the outcome of a query of the microphone. Tells whether it
/// succeeded.
pub fn refresh_mic_muted(obs: &mut ObsRuntime, outcome: Option<bool>, now: Instant) -> (ok: bool)
    ensures
        ok == outcome is Some,
        final(obs)@ == match outcome {
            Some(muted) => old(obs)@.with_mic(muted, now),
            None => old(obs)@,
        },
        final(obs).traffic() == old(obs).traffic(),
{
    match outcome {
        Some(muted) => {
            obs.set_mic_muted(muted, now);
            true
        },
        None => false,
    }
}

/// A wait for the next attempt: it began with the last attempt, which failed.
#[derive(Debug, Clone, Copy, PartialEq, Eq, Structural)]
pub struct Hold {
    /// When the attempt that failed was begun.
    pub since: Instant,
    pub secs: u64,
}

impl Hold {
    /// Whether the wait is over.
    pub open spec fn is_over(self, now: Instant) -> bool {
        now.at_least_after(self.since, 1000 * self.secs)
    }
}

/// The attempts to reach PulseAudio again after it was lost.
#[derive(Debug)]
pub struct AudioReconnector {
    held: Option<Hold>,
    backoff: Backoff,
}

/// The content of an [`AudioReconnector`].
pub struct AudioReconnectorView {
    /// The wait before the next attempt; `None` where it may come at once.
    pub held: Option<Hold>,
    pub backoff: BackoffView,
}

impl View for AudioReconnector {
    type V = AudioReconnectorView;

    closed spec fn view(&self) -> AudioReconnectorView {
        AudioReconnectorView { held: self.held, backoff: self.backoff@ }
    }
}

impl AudioReconnectorView {
    /// No attempt has been made.
    pub open spec fn fresh() -> AudioReconnectorView {
        AudioReconnectorView {
            held: None,
            backoff: BackoffView::fresh(
                AUDIO_BACKOFF_INITIAL_SECS as nat,
                AUDIO_BACKOFF_MAX_SECS as nat,
            ),
        }
    }

    /// While PulseAudio is there, the next loss is answered at once.
    pub open spec fn calmed(self) -> AudioReconnectorView {
        AudioReconnectorView { held: None, backoff: self.backoff.restarted() }
    }

    /// Whether an attempt may be made.
    pub open spec fn may_attempt(self, now: Instant) -> bool {
        match self.held {
            Some(hold) => hold.is_over(now),
            None => true,
        }
    }

    /// After an attempt that was begun at an instant. Where it failed, the
    /// wait counts from there, however long the attempt took.
    pub open spec fn after(self, reconnected: bool, begun: Instant) -> AudioReconnectorView {
        if reconnected {
            self.calmed()
        } else {
            AudioReconnectorView {
                held: Some(Hold { since: begun, secs: self.backoff.next as u64 }),
                backoff: self.backoff.doubled(),
            }
        }
    }

    /// Whether the waits are those of PulseAudio.
    pub open spec fn is_valid(self) -> bool {
        self.backoff.next <= AUDIO_BACKOFF_MAX_SECS && self.backoff.max == AUDIO_BACKOFF_MAX_SECS
            && self.backoff.initial == AUDIO_BACKOFF_INITIAL_SECS
    }
}

impl AudioReconnector {
    #[verifier::type_invariant]
    spec fn well_formed(self) -> bool {
        self@.is_valid()
    }

    /// No attempt has been made.
    pub fn new() -> (r: AudioReconnector)
        ensures
            r@ == AudioReconnectorView::fresh(),
    {
        AudioReconnector {
            held: None,
            backoff: Backoff::new(AUDIO_BACKOFF_INITIAL_SECS, AUDIO_BACKOFF_MAX_SECS),
        }
    }

    /// Whether to attempt to reach PulseAudio now.
    pub fn tick(&mut self, connected: bool, now: Instant) -> (attempt: bool)
        ensures
            attempt == (!connected && old(self)@.may_attempt(now)),
            final(self)@ == if connected {
                old(self)@.calmed()
            } else {
                old(self)@
            },
    {
        proof {
            use_type_invariant(&*self);
        }
        if connected {
            self.held = None;
            self.backoff.reset();
            return false;
        }
        match self.held {
            Some(hold) => now.reached_secs(hold.since, hold.secs),
            None => true,
        }
    }

    /// Takes the outcome of an attempt that was begun at an instant.
    pub fn attempted(&mut self, reconnected: bool, begun: Instant)
        ensures
            final(self)@ == old(self)@.after(reconnected, begun),
    {
        proof {
            use_type_invariant(&*self);
        }
        if reconnected {
            self.held = None;
            self.backoff.reset();
        } else {
            let secs = self.backoff.wait();
            self.held = Some(Hold { since: begun, secs });
        }
    }
}

/// While PulseAudio is gone, attempts begin at least two seconds and at most
/// five seconds apart, and the first comes at once.
pub proof fn law_audio_attempts_are_spaced(s: AudioReconnectorView, failed: Instant, now: Instant)
    requires
        s.is_valid(),
        s.backoff.next >= AUDIO_BACKOFF_INITIAL_SECS,
    ensures
        AudioReconnectorView::fresh().may_attempt(now),
        s.after(false, failed).may_attempt(now) ==> now.at_least_after(failed, 2000),
        now.at_least_after(failed, 5000) ==> s.after(false, failed).may_attempt(now),
        s.after(false, failed).backoff.next >= AUDIO_BACKOFF_INITIAL_SECS,
        s.after(false, failed).is_valid(),
        s.after(true, failed).may_attempt(now),
{
}

/// A row of failed polls is reported once at its start and once at its end.
pub proof fn law_outages_are_reported_once(p: MicPoller)
    ensures
        p.note(None) == PollNote::FirstFailure <==> p.failures == 0,
        p.after(None).note(None) == PollNote::Nothing,
        p.after(None).note(Some(true)) is Recovered,
        p.after(Some(true)).note(Some(false)) == PollNote::Nothing,
{
}

/// The microphone is polled at once and then every quarter of a second. A poll
/// that fails lengthens the row of failures by one, and one that succeeds ends
/// it; the outage is then a quarter of a second for each failure.
pub proof fn law_polls_are_a_quarter_of_a_second_apart(p: MicPoller, last: Instant, now: Instant)
    ensures
        p.last_poll is None ==> p.is_due(now),
        p.last_poll == Some(last) ==> (p.is_due(now) <==> now.nanos >= last.nanos + 250_000_000),
        p.failures < u32::MAX ==> p.after(None).failures == p.failures + 1,
        p.failures == u32::MAX ==> p.after(None).failures == u32::MAX,
        forall|muted: bool|
            {
                &&& (#[trigger] p.after(Some(muted))).failures == 0
                &&& p.failures == 0 ==> p.note(Some(muted)) == PollNote::Nothing
                &&& p.failures > 0 ==> p.note(Some(muted)) == (PollNote::Recovered {
                    outage_ms: (250 * p.failures) as u64,
                })
            },
        p.failures == 0 ==> p.note(None) == PollNote::FirstFailure,
        p.failures > 0 ==> p.note(None) == PollNote::Nothing,
        p.after(None).last_poll == p.last_poll,
{
}

/// Attempts to reach PulseAudio wait for 2, 4 and then 5 seconds, each from the
/// begin of the attempt before; attempts to open the panel for 2, 4, 8, 16 and
/// then 30 seconds. An attempt that succeeds, or a connection that stands, is
/// followed by one at once.
pub proof fn law_waits_are_those_of_their_device(
    s: AudioReconnectorView,
    begun: Instant,
    now: Instant,
    n: nat,
)
    ensures
        AudioReconnectorView::fresh().backoff == BackoffView::fresh(2, 5),
        PANEL_BACKOFF_INITIAL_SECS == 2 && PANEL_BACKOFF_MAX_SECS == 30,
        s.is_valid() ==> {
            let failed = s.after(false, begun);
            &&& failed.held == Some(Hold { since: begun, secs: s.backoff.next as u64 })
            &&& failed.may_attempt(now) <==> now.nanos >= begun.nanos + s.backoff.next
                * 1_000_000_000
            &&& s.backoff.next == 2 ==> failed.backoff.next == 4
            &&& s.backoff.next == 4 ==> failed.backoff.next == 5
            &&& s.backoff.next == 5 ==> failed.backoff.next == 5
        },
        s.after(true, begun).held is None && s.calmed().held is None,
        s.after(true, begun).backoff == BackoffView::fresh(s.backoff.initial, s.backoff.max),
        s.calmed().backoff == BackoffView::fresh(s.backoff.initial, s.backoff.max),
        s.calmed().may_attempt(now),
        BackoffView::fresh(2, 30).after_waits(1).next == 4,
        BackoffView::fresh(2, 30).after_waits(2).next == 8,
        BackoffView::fresh(2, 30).after_waits(3).next == 16,
        n >= 4 ==> BackoffView::fresh(2, 30).after_waits(n).next == 30,
{
    let b = BackoffView::fresh(2, 30);
    reveal_with_fuel(BackoffView::after_waits, 5);
    if n >= 4 {
        assert(b.after_waits(4).next == 30);
        crate::backoff::law_waits_grow_to_the_ceiling(b, 4, n);
    }
}

} // verus!
