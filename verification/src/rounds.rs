//! What holds of the rounds of the main loop.
use vstd::prelude::*;

use crate::clock::{Clock, Instant};
use crate::config::{
    default_obs_colors, ActionView, AppTargetView, ConfigView, ControlId, RgbMode,
};
use crate::controller::{
    applied, suits, Cause, ControllerView, DemandView, Happened, Step, Surroundings,
};
use crate::device::Event;
use crate::obs::{ObsCommand, ObsEvent, Traffic};
use crate::paint::{indicator_shows, look};
use crate::panel::{
    fits, law_panel_tasks_end, lemma_begin_is_valid, EffectView, Outcome, TaskStage, TaskTurn,
    TaskView,
};
use crate::runtime::{
    after_dispatch, law_clean_events_change_nothing, law_events_keep_configuration, reachable,
    ObsState, RuntimeView,
};

verus! {

/// Whether a step belongs to a round that has begun and is not over.
pub open spec fn in_round(step: Step) -> bool {
    match step {
        Step::Seeding | Step::FirstPaint | Step::Idle | Step::Painting => false,
        _ => true,
    }
}

proof fn lemma_same_look(s: RuntimeView, t: RuntimeView, rgb: Option<RgbMode>, now: Instant, later: Instant)
    requires
        s == t || (t == s.with_mic(s.mic_muted, t.mic_confirmed_at) && !s.mic_stale(now)
            && !t.mic_stale(later)),
        now == later || match s.flash {
            Some(f) => f.blink is None,
            None => true,
        },
        now == later || !s.mic_indicator() || !indicator_shows(s, rgb) || (!s.mic_stale(now)
            && !t.mic_stale(later)),
    ensures
        look(s, rgb, now) == look(t, rgb, later),
{
    let a = s.indicator_color(now);
    let b = t.indicator_color(later);
    if indicator_shows(s, rgb) {
        assert(a == b);
    }
}

/// A round that asks for no repaint at its start would paint what was painted
/// before: nothing that the panel shows has changed.
pub proof fn law_quiet_rounds_show_the_same(
    s: ControllerView,
    events: Seq<(ObsEvent, Instant)>,
    painted: Instant,
    now: Instant,
)
    requires
        painted.nanos <= now.nanos,
        !s.round(events, now).dirty,
    ensures
        look(s.runtime, s.rgb, painted) == look(s.round(events, now).runtime, s.rgb, now),
{
    law_clean_events_change_nothing(s.runtime, events);
    let t = s.round(events, now).runtime;
    assert(t == s.runtime);
    lemma_same_look(s.runtime, t, s.rgb, painted, now);
}

proof fn lemma_applied_clean(
    start: Surroundings,
    effects: Seq<EffectView>,
    taken: Seq<bool>,
    rgb: Option<RgbMode>,
    now: Instant,
)
    ensures
        start.dirty ==> applied(start, effects, taken, now).dirty,
        !applied(start, effects, taken, now).dirty ==> look(start.runtime, rgb, now) == look(
            applied(start, effects, taken, now).runtime,
            rgb,
            now,
        ),
    decreases effects.len(),
{
    if effects.len() > 0 {
        lemma_applied_clean(start, effects.drop_last(), taken, rgb, now);
        let s = applied(start, effects.drop_last(), taken, now);
        match effects[effects.len() - 1] {
            EffectView::MicMuted(muted) => {
                if !s.dirty && !s.runtime.mic_news(muted, now) {
                    lemma_mic_without_news(s.runtime, muted, rgb, now);
                }
            },
            _ => {},
        }
    }
}

proof fn lemma_mic_without_news(r: RuntimeView, muted: bool, rgb: Option<RgbMode>, now: Instant)
    requires
        !r.mic_news(muted, now),
    ensures
        look(r, rgb, now) == look(r.with_mic(muted, now), rgb, now),
{
    assert(r.indicator_color(now) == r.with_mic(muted, now).indicator_color(now));
}

/// How far a step is from the end of its round.
pub open spec fn rank(step: Step) -> nat {
    match step {
        Step::Seeding => 13,
        Step::FirstPaint => 12,
        Step::Resume => 11,
        Step::Refreshing(Cause::Resume) => 10,
        Step::Audio => 9,
        Step::Reconnecting(_) => 8,
        Step::Refreshing(Cause::Reconnect) => 7,
        Step::Polling => 6,
        Step::Flushing => 5,
        Step::Reading => 4,
        Step::Working => 3,
        Step::Reopening => 2,
        Step::Painting => 1,
        Step::Idle => 0,
    }
}

/// Whether something that happened leads to the work of an event.
pub open spec fn leads_to_work(happened: Happened) -> bool {
    match happened {
        Happened::Panel(Some(_)) => true,
        Happened::Worked(_) => true,
        _ => false,
    }
}

/// A step that does not concern the work of an event.
#[verifier::spinoff_prover]
proof fn lemma_moved(s: ControllerView, happened: Happened, now: Instant)
    requires
        suits(happened, s.step, s.task.stage),
        !leads_to_work(happened),
    ensures
        ({
            let t = s.moved(happened, now).controller;
            &&& t.task == s.task
            &&& t.rgb == s.rgb
            &&& rank(t.step) < rank(s.step)
            &&& s.dirty && s.step != Step::Painting ==> t.dirty
            &&& s.dirty && in_round(s.step) ==> t.step != Step::Idle
            &&& !s.dirty && !in_round(s.step) ==> !t.dirty
            &&& t.step is Refreshing ==> t.dirty || s.step is Refreshing
            &&& t.step == Step::Painting ==> t.dirty
            &&& t.step == Step::Idle && in_round(s.step) ==> !t.dirty
        }),
{
}

proof fn lemma_plain_step(s: ControllerView, happened: Happened, taken: Seq<bool>, now: Instant)
    requires
        !leads_to_work(happened),
    ensures
        s.after(happened, taken, now) == s.moved(happened, now),
{
}

/// A step of the work of an event.
proof fn lemma_acts(
    s: ControllerView,
    turn: TaskTurn,
    taken: Seq<bool>,
    now: Instant,
)
    ensures
        ({
            let t = s.acts(turn, taken, now).controller;
            &&& t.task == turn.task
            &&& t.rgb == s.rgb
            &&& s.dirty ==> t.dirty
            &&& !t.dirty ==> look(s.runtime, s.rgb, now) == look(t.runtime, s.rgb, now)
            &&& t.step == if turn.task.stage != TaskStage::Done {
                Step::Working
            } else if t.dirty {
                Step::Painting
            } else {
                Step::Idle
            }
        }),
{
    lemma_applied_clean(s.surroundings(), turn.effects, taken, s.rgb, now);
}

proof fn lemma_work_step(s: ControllerView, happened: Happened, taken: Seq<bool>, now: Instant)
    requires
        suits(happened, s.step, s.task.stage),
        leads_to_work(happened),
    ensures
        s.turn_of(happened) is Some,
        s.after(happened, taken, now) == s.acts(s.turn_of(happened)->Some_0, taken, now),
        s.step == Step::Reading || s.step == Step::Working,
{
}

/// The loop starts in a valid state and stays in one.
pub proof fn law_loop_stays_valid(
    s: ControllerView,
    config: ConfigView,
    traffic: Option<Traffic>,
    verbose: bool,
    clock: Clock,
    born: Instant,
    events: Seq<(ObsEvent, Instant)>,
    happened: Happened,
    taken: Seq<bool>,
    now: Instant,
)
    ensures
        ControllerView::begin(config, traffic, verbose, clock, born).is_valid(),
        s.is_valid() ==> s.round(events, now).is_valid(),
        s.is_valid() && suits(happened, s.step, s.task.stage) && s.task.targets.len() <= usize::MAX
            ==> s.after(happened, taken, now).controller.is_valid(),
{
    if s.is_valid() && suits(happened, s.step, s.task.stage) && s.task.targets.len() <= usize::MAX {
        if leads_to_work(happened) {
            lemma_work_step(s, happened, taken, now);
            lemma_acts(s, s.turn_of(happened)->Some_0, taken, now);
            lemma_turn_is_valid(s, happened);
        } else {
            lemma_plain_step(s, happened, taken, now);
        lemma_moved(s, happened, now);
        }
    }
}

proof fn lemma_turn_is_valid(s: ControllerView, happened: Happened)
    requires
        s.task.is_valid(),
        suits(happened, s.step, s.task.stage),
        s.task.targets.len() <= usize::MAX,
        leads_to_work(happened),
    ensures
        s.turn_of(happened)->Some_0.task.is_valid(),
        happened is Worked ==> 0 <= s.turn_of(happened)->Some_0.task.distance() < s.task.distance(),
{
    match happened {
        Happened::Panel(Some(event)) => {
            lemma_begin_is_valid(event, s.mappings, s.verbose);
        },
        Happened::Worked(outcome) => {
            law_panel_tasks_end(s.task, outcome);
        },
        _ => {},
    }
}

proof fn lemma_applied_keeps_the_clock(
    start: Surroundings,
    effects: Seq<EffectView>,
    taken: Seq<bool>,
    now: Instant,
)
    ensures
        applied(start, effects, taken, now).runtime.clock == start.runtime.clock,
    decreases effects.len(),
{
    if effects.len() > 0 {
        lemma_applied_keeps_the_clock(start, effects.drop_last(), taken, now);
    }
}

/// All instants of the loop are readings of one clock: no step replaces it.
pub proof fn law_one_clock_for_all(
    s: ControllerView,
    events: Seq<(ObsEvent, Instant)>,
    happened: Happened,
    taken: Seq<bool>,
    now: Instant,
)
    ensures
        s.round(events, now).runtime.clock == s.runtime.clock,
        s.after(happened, taken, now).controller.runtime.clock == s.runtime.clock,
{
    law_events_keep_configuration(s.runtime, events);
    match s.turn_of(happened) {
        Some(turn) => lemma_applied_keeps_the_clock(s.surroundings(), turn.effects, taken, now),
        None => {},
    }
}

/// No step of a round changes what would be painted without asking for a
/// repaint.
pub proof fn law_changes_ask_for_a_repaint(
    s: ControllerView,
    happened: Happened,
    taken: Seq<bool>,
    now: Instant,
)
    requires
        s.is_valid(),
        in_round(s.step),
        suits(happened, s.step, s.task.stage),
        !s.after(happened, taken, now).controller.dirty,
    ensures
        look(s.runtime, s.rgb, now) == look(
            s.after(happened, taken, now).controller.runtime,
            s.rgb,
            now,
        ),
        s.after(happened, taken, now).controller.rgb == s.rgb,
{
    if leads_to_work(happened) {
        lemma_work_step(s, happened, taken, now);
        lemma_acts(s, s.turn_of(happened)->Some_0, taken, now);
    } else {
        lemma_plain_step(s, happened, taken, now);
        lemma_moved(s, happened, now);
        lemma_moved_runtime(s, happened, now);
        if let Happened::Mic(Some(muted)) = happened {
            if s.step == Step::Polling {
                lemma_mic_without_news(s.runtime, muted, s.rgb, now);
            }
        }
    }
}

/// What a step that does not concern the work of an event does to the runtime
/// state.
proof fn lemma_moved_runtime(s: ControllerView, happened: Happened, now: Instant)
    requires
        in_round(s.step),
        suits(happened, s.step, s.task.stage),
        !leads_to_work(happened),
    ensures
        ({
            let t = s.moved(happened, now).controller;
            match happened {
                Happened::Mic(Some(muted)) => {
                    &&& t.runtime == s.runtime.with_mic(muted, now)
                    &&& s.step == Step::Polling ==> t.dirty == (s.dirty || s.runtime.mic_news(
                        muted,
                        now,
                    ))
                },
                _ => t.runtime == s.runtime,
            }
        }),
{
}

/// A repaint that was asked for in a round is not forgotten: the round does
/// not end without it. And a round that asked for none ends without one.
pub proof fn law_asked_repaints_are_painted(
    s: ControllerView,
    happened: Happened,
    taken: Seq<bool>,
    now: Instant,
)
    requires
        in_round(s.step),
        suits(happened, s.step, s.task.stage),
    ensures
        ({
            let t = s.after(happened, taken, now).controller;
            &&& s.dirty ==> t.dirty
            &&& t.step == Step::Idle ==> !t.dirty
            &&& t.step == Step::Painting ==> t.dirty
        }),
{
    if leads_to_work(happened) {
        lemma_work_step(s, happened, taken, now);
        lemma_acts(s, s.turn_of(happened)->Some_0, taken, now);
    } else {
        lemma_plain_step(s, happened, taken, now);
        lemma_moved(s, happened, now);
    }
}

/// The LEDs are painted anew after the system has woken up, after PulseAudio
/// has come back, and after the panel was replaced.
pub proof fn law_returns_are_repainted(s: ControllerView, taken: Seq<bool>, now: Instant)
    ensures
        s.step == Step::Resume ==> s.after(Happened::Resumed(true), taken, now).controller.dirty,
        s.step is Reconnecting ==> s.after(
            Happened::Reconnected(true),
            taken,
            now,
        ).controller.dirty,
        s.step == Step::Reopening ==> s.after(Happened::Done, taken, now).controller.step
            == Step::Painting,
{
}

/// The wait after a failed attempt to reach PulseAudio counts from the instant
/// at which the attempt was begun, however long it took.
pub proof fn law_audio_waits_count_from_the_attempt(
    s: ControllerView,
    taken: Seq<bool>,
    begun: Instant,
    failed: Instant,
)
    requires
        s.step == Step::Audio,
        s.link.may_attempt(begun),
    ensures
        ({
            let t = s.after(Happened::AudioConnected(false), taken, begun).controller;
            let u = t.after(Happened::Reconnected(false), taken, failed).controller;
            &&& t.demand(begun) is ReconnectAudio
            &&& u.link == s.link.after(false, begun)
        }),
{
}

/// Every round comes to its end: each step is nearer to it than the last, and
/// the work of an event is bounded.
pub proof fn law_rounds_end(s: ControllerView, happened: Happened, taken: Seq<bool>, now: Instant)
    requires
        s.is_valid(),
        suits(happened, s.step, s.task.stage),
        s.task.targets.len() <= usize::MAX,
    ensures
        ({
            let t = s.after(happened, taken, now).controller;
            rank(t.step) < rank(s.step) || (s.step == Step::Working && t.step == Step::Working && 0
                <= t.task.distance() < s.task.distance())
        }),
{
    if leads_to_work(happened) {
        lemma_work_step(s, happened, taken, now);
        lemma_acts(s, s.turn_of(happened)->Some_0, taken, now);
        lemma_turn_is_valid(s, happened);
    } else {
        lemma_plain_step(s, happened, taken, now);
        lemma_moved(s, happened, now);
    }
}

/// The command that an action sends to OBS.
pub open spec fn command_of(action: ActionView) -> Option<ObsCommand> {
    match action {
        ActionView::ObsSaveReplay => Some(ObsCommand::SaveReplay),
        ActionView::ObsToggleRecording => Some(ObsCommand::ToggleRecording),
        ActionView::ObsPauseRecording => Some(ObsCommand::PauseRecording),
        ActionView::ObsSplitRecording => Some(ObsCommand::SplitRecording),
        _ => None,
    }
}

/// A button with an OBS action hands exactly its command to OBS while OBS is
/// connected, and once. Where the command does not get through, it is reported
/// as skipped, and the error flash is painted in the same round.
pub proof fn law_obs_buttons_send_their_command(
    s: ControllerView,
    index: u8,
    taken: Seq<bool>,
    now: Instant,
)
    requires
        s.step == Step::Reading,
        s.mappings.dom().contains(ControlId::Button(index)),
        command_of(s.mappings[ControlId::Button(index)]) is Some,
    ensures
        ({
            let c = command_of(s.mappings[ControlId::Button(index)])->Some_0;
            let n = if s.verbose {
                1int
            } else {
                0int
            };
            let asked = reachable(s.traffic, s.runtime.connected);
            let turn = s.after(
                Happened::Panel(Some(Event::ButtonPress { index })),
                taken,
                now,
            );
            let t = turn.controller;
            &&& turn.skipped == if asked && taken[n] {
                Seq::empty()
            } else {
                seq![c]
            }
            &&& t.traffic == after_dispatch(s.traffic, s.runtime.connected, c, asked && taken[n])
            &&& asked && taken[n] ==> t.runtime == s.runtime && t.dirty == s.dirty
            &&& !(asked && taken[n]) ==> t.runtime == s.runtime.with_error_flash(now) && t.step
                == Step::Painting
        }),
{
    let c = command_of(s.mappings[ControlId::Button(index)])->Some_0;
    let turn = TaskView::commands(c, s.verbose);
    let n = if s.verbose {
        1int
    } else {
        0int
    };
    assert(TaskView::begin(Event::ButtonPress { index }, s.mappings, s.verbose) == turn);
    assert(turn.effects[n] == EffectView::Dispatch(c));
    reveal_with_fuel(applied, 3);
    assert(turn.effects.drop_last().len() == n);
    if s.verbose {
        assert(turn.effects.drop_last()[0] is Trace);
        assert(turn.effects.drop_last().drop_last().len() == 0);
    }
}

/// A microphone that is muted by a button is known to be so at once, without
/// waiting for a poll, and the logo follows in the same round.
pub proof fn law_mic_buttons_show_at_once(
    s: ControllerView,
    i: usize,
    muted: bool,
    taken: Seq<bool>,
    now: Instant,
)
    requires
        s.step == Step::Working,
        s.task.stage == TaskStage::Mute(i),
        s.task.targets[i as int] == AppTargetView::Mic,
    ensures
        ({
            let t = s.after(
                Happened::Worked(Outcome::Mute(Some(muted))),
                taken,
                now,
            ).controller;
            &&& t.runtime == s.runtime.with_mic(muted, now)
            &&& t.dirty == (s.dirty || s.runtime.mic_news(muted, now))
        }),
{
    let turn = s.task.after(Outcome::Mute(Some(muted)));
    let e = turn.effects;
    reveal_with_fuel(applied, 4);
    let k = if s.task.verbose {
        1int
    } else {
        0int
    };
    assert(e.len() == k + 2);
    assert(e[k] == EffectView::MicMuted(muted));
    assert(e[k + 1] is Popup);
    assert(e.drop_last().len() == k + 1);
    assert(e.drop_last()[k] == EffectView::MicMuted(muted));
    assert(e.drop_last().drop_last().len() == k);
    if s.task.verbose {
        assert(e.drop_last().drop_last()[0] is Trace);
        assert(e.drop_last().drop_last().drop_last().len() == 0);
    }
}

/// The loop begins with what the configuration says, without OBS, without a
/// flash and with an open microphone that has been confirmed at the start;
/// where the logo shows the microphone it is queried first, and else the panel
/// is painted at once.
pub proof fn law_loop_begins_as_configured(
    config: ConfigView,
    traffic: Option<Traffic>,
    verbose: bool,
    clock: Clock,
    born: Instant,
    now: Instant,
)
    ensures
        ({
            let s = ControllerView::begin(config, traffic, verbose, clock, born);
            let r = s.runtime;
            &&& s.mappings == config.mappings && s.rgb == config.rgb && s.verbose == verbose
            &&& s.traffic == traffic && !s.dirty && s.task.work() is Finished
            &&& s.poller.last_poll is None && s.poller.failures == 0 && s.link.held is None
            &&& config.obs is Some ==> r.colors == config.obs->Some_0.colors
                && r.paused_use_breath == config.obs->Some_0.paused_use_breath
            &&& config.obs is None ==> r.colors == default_obs_colors() && !r.paused_use_breath
            &&& !r.connected && r.state == ObsState::Idle && r.replay_buffer_active is None
            &&& r.flash is None && !r.mic_muted && r.mic_confirmed_at == born && r.clock == clock
            &&& r.logo_cfg == config.logo
            &&& if r.mic_indicator() {
                s.demand(now) is QueryMic
            } else {
                s.demand(now) == DemandView::Paint(look(r, config.rgb, now))
            }
        }),
{
}

/// Whether a poll of the microphone follows where it is time for one, and the
/// volumes are persisted next otherwise.
pub open spec fn polls_or_flushes(s: ControllerView, t: ControllerView, now: Instant) -> bool {
    if s.runtime.mic_indicator() && s.poller.is_due(now) {
        t.demand(now) is PollMic && t.poller.last_poll == Some(now) && t.poller.failures
            == s.poller.failures
    } else {
        t.demand(now) is FlushPersist && t.poller == s.poller
    }
}

/// Whether a state of the microphone was recorded, where the query had one.
pub open spec fn records(s: ControllerView, mic: Option<bool>, t: ControllerView, now: Instant) -> bool {
    match mic {
        Some(muted) => t.runtime == (RuntimeView {
            mic_muted: muted,
            mic_confirmed_at: now,
            ..s.runtime
        }),
        None => t.runtime == s.runtime,
    }
}

/// A round asks first whether the system has woken up and then whether
/// PulseAudio is there. Where the system has woken up, the microphone is
/// queried in between if the logo shows it, and the panel is to be painted.
/// Before the first round the panel is painted, with the microphone's state
/// where it was found.
#[verifier::spinoff_prover]
pub proof fn law_rounds_ask_about_sleep_first(
    s: ControllerView,
    events: Seq<(ObsEvent, Instant)>,
    mic: Option<bool>,
    taken: Seq<bool>,
    now: Instant,
)
    ensures
        s.round(events, now).demand(now) is CheckResume,
        s.step == Step::Seeding ==> {
            let t = s.after(Happened::Mic(mic), taken, now).controller;
            t.demand(now) == DemandView::Paint(look(t.runtime, s.rgb, now)) && records(
                s,
                mic,
                t,
                now,
            )
        },
        s.step == Step::FirstPaint ==> s.after(
            Happened::Done,
            taken,
            now,
        ).controller.demand(now) is NextRound,
        s.step == Step::Resume ==> {
            let slept = s.after(Happened::Resumed(true), taken, now).controller;
            let not = s.after(Happened::Resumed(false), taken, now).controller;
            &&& not.demand(now) is CheckAudio && not.dirty == s.dirty
            &&& slept.dirty && if s.runtime.mic_indicator() {
                slept.demand(now) is QueryMic && slept.step == Step::Refreshing(Cause::Resume)
            } else {
                slept.demand(now) is CheckAudio
            }
        },
        s.step == Step::Refreshing(Cause::Resume) ==> {
            let t = s.after(Happened::Mic(mic), taken, now).controller;
            &&& t.demand(now) is CheckAudio && records(s, mic, t, now)
            &&& mic is Some ==> t.poller.last_poll == Some(now)
            &&& mic is None ==> t.poller.last_poll == s.poller.last_poll
        },
{
}

/// Where PulseAudio is there, the microphone is polled next if it is time for
/// it. Where it is gone and the wait is over, an attempt to reach it comes
/// before that; one that succeeds has the microphone queried if the logo shows
/// it, and the panel painted.
#[verifier::spinoff_prover]
pub proof fn law_rounds_reach_for_audio_next(
    s: ControllerView,
    mic: Option<bool>,
    begun: Instant,
    taken: Seq<bool>,
    now: Instant,
)
    ensures
        s.step == Step::Refreshing(Cause::Reconnect) ==> {
            let t = s.after(Happened::Mic(mic), taken, now).controller;
            &&& records(s, mic, t, now)
            &&& mic is None ==> polls_or_flushes(s, t, now)
            &&& mic is Some ==> t.demand(now) is FlushPersist && t.poller.last_poll == Some(now)
        },
        s.step == Step::Audio ==> {
            let there = s.after(Happened::AudioConnected(true), taken, now).controller;
            let gone = s.after(Happened::AudioConnected(false), taken, now).controller;
            &&& polls_or_flushes(s, there, now) && there.link == s.link.calmed()
            &&& gone.link == s.link
            &&& if s.link.may_attempt(now) {
                gone.demand(now) is ReconnectAudio && gone.step == Step::Reconnecting(now)
            } else {
                polls_or_flushes(s, gone, now)
            }
        },
        s.step == Step::Reconnecting(begun) ==> {
            let back = s.after(Happened::Reconnected(true), taken, now).controller;
            let not = s.after(Happened::Reconnected(false), taken, now).controller;
            &&& polls_or_flushes(s, not, now) && not.link == s.link.after(false, begun)
                && not.dirty == s.dirty
            &&& back.dirty && back.link.held is None
            &&& if s.runtime.mic_indicator() {
                back.demand(now) is QueryMic && back.step == Step::Refreshing(Cause::Reconnect)
            } else {
                back.demand(now) is FlushPersist
            }
        },
{
}

/// After the poll, if there is one, volumes are persisted and the panel is
/// read. A round without an event ends there, with a painting where one is
/// needed; a panel that went away is opened again and painted.
#[verifier::spinoff_prover]
pub proof fn law_rounds_read_the_panel_last(
    s: ControllerView,
    mic: Option<bool>,
    taken: Seq<bool>,
    now: Instant,
)
    ensures
        s.step == Step::Polling ==> {
            let turn = s.after(Happened::Mic(mic), taken, now);
            let t = turn.controller;
            &&& t.demand(now) is FlushPersist && records(s, mic, t, now)
            &&& t.poller == s.poller.after(mic) && turn.note == s.poller.note(mic)
            &&& t.dirty <==> s.dirty || mic is Some && s.runtime.mic_news(mic->Some_0, now)
        },
        s.step == Step::Flushing ==> s.after(
            Happened::Done,
            taken,
            now,
        ).controller.demand(now) is ReadPanel,
        s.step == Step::Reading ==> {
            let quiet = s.after(Happened::Panel(None), taken, now).controller;
            &&& s.after(Happened::PanelLost, taken, now).controller.demand(now) is ReopenPanel
            &&& quiet.runtime == s.runtime && if s.dirty {
                quiet.demand(now) == DemandView::Paint(look(s.runtime, s.rgb, now))
            } else {
                quiet.demand(now) is NextRound
            }
        },
        s.step == Step::Reopening ==> s.after(Happened::Done, taken, now).controller.demand(now)
            == DemandView::Paint(look(s.runtime, s.rgb, now)),
        s.step == Step::Painting ==> {
            let t = s.after(Happened::Done, taken, now).controller;
            t.demand(now) is NextRound && !t.dirty
        },
{
}

/// An event of the panel leads to its work, and each reply to the next work,
/// until there is none left; then the round ends, with a painting where one is
/// needed.
pub proof fn law_events_lead_to_their_work(
    s: ControllerView,
    event: Event,
    outcome: Outcome,
    taken: Seq<bool>,
    now: Instant,
)
    ensures
        s.step == Step::Reading ==> {
            let turn = TaskView::begin(event, s.mappings, s.verbose);
            let r = s.after(Happened::Panel(Some(event)), taken, now);
            let t = r.controller;
            &&& r.effects == turn.effects && t.task == turn.task
            &&& if !(turn.task.work() is Finished) {
                t.demand(now) == DemandView::Perform(turn.task.work())
            } else if t.dirty {
                t.demand(now) == DemandView::Paint(look(t.runtime, s.rgb, now))
            } else {
                t.demand(now) is NextRound
            }
        },
        s.step == Step::Working && fits(outcome, s.task.stage) ==> {
            let turn = s.task.after(outcome);
            let r = s.after(Happened::Worked(outcome), taken, now);
            let t = r.controller;
            &&& r.effects == turn.effects && t.task == turn.task
            &&& if !(turn.task.work() is Finished) {
                t.demand(now) == DemandView::Perform(turn.task.work())
            } else if t.dirty {
                t.demand(now) == DemandView::Paint(look(t.runtime, s.rgb, now))
            } else {
                t.demand(now) is NextRound
            }
        },
{
}

/// Each demand is answered by its own kind of reply, and the next round by
/// none.
pub proof fn law_replies_suit_their_demand(s: ControllerView, happened: Happened, now: Instant)
    ensures
        ({
            let d = s.demand(now);
            let suited = suits(happened, s.step, s.task.stage);
            &&& d is QueryMic || d is PollMic ==> (suited <==> happened is Mic)
            &&& d is Paint || d is FlushPersist || d is ReopenPanel ==> (suited <==> happened
                is Done)
            &&& d is CheckResume ==> (suited <==> happened is Resumed)
            &&& d is CheckAudio ==> (suited <==> happened is AudioConnected)
            &&& d is ReconnectAudio ==> (suited <==> happened is Reconnected)
            &&& d is ReadPanel ==> (suited <==> happened is Panel || happened is PanelLost)
            &&& d is Perform ==> (suited <==> happened is Worked && fits(
                happened->Worked_0,
                s.task.stage,
            ))
            &&& d is NextRound ==> !suited
        }),
{
}

/// Without an event of OBS and without a flash, a round begins with a repaint
/// only where the logo shows a microphone whose state is stale; and only the
/// flash of the state changes at its begin.
pub proof fn law_rounds_without_news_are_quiet(s: ControllerView, now: Instant)
    requires
        s.runtime.flash is None,
    ensures
        ({
            let t = s.round(Seq::empty(), now);
            &&& t.dirty <==> s.runtime.mic_indicator() && s.runtime.mic_stale(now)
                && indicator_shows(s.runtime, s.rgb)
            &&& t.runtime == s.runtime && t.task == s.task && t.poller == s.poller && t.link
                == s.link
        }),
{
}

} // verus!
