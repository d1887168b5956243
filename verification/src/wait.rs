//! Waiting for PulseAudio, which answers while its main loop is iterated.
use vstd::prelude::*;
use vstd::string::*;

use crate::clock::Instant;

verus! {

/// How many iterations an answer may take.
pub const MAX_ITERATIONS: u32 = 1000;

/// How long an answer may take, in milliseconds.
pub const DEADLINE_MS: u64 = 250;

/// How long a new attempt to connect may take, in milliseconds.
pub const CONNECT_DEADLINE_MS: u64 = 3000;

/// The outcome of an iteration of the main loop.
#[derive(Debug)]
pub enum Iterated {
    Success,
    Error(String),
    Quit,
}

/// What a wait comes to.
#[derive(Debug)]
pub enum Verdict {
    Done,
    /// Iterate the main loop once more.
    Iterate,
    Failed(String),
}

/// The content of a [`Verdict`].
pub enum VerdictView {
    Done,
    Iterate,
    Failed(Seq<char>),
}

impl View for Verdict {
    type V = VerdictView;

    open spec fn view(&self) -> VerdictView {
        match *self {
            Verdict::Done => VerdictView::Done,
            Verdict::Iterate => VerdictView::Iterate,
            Verdict::Failed(m) => VerdictView::Failed(m@),
        }
    }
}

/// A wait for an answer.
#[derive(Debug, Clone, Copy, PartialEq, Eq, Structural)]
pub struct Wait {
    pub started: Instant,
    pub iterations: u32,
}

impl Wait {
    /// What the wait comes to before an iteration.
    pub open spec fn verdict(self, done: bool, now: Instant) -> VerdictView {
        if done {
            VerdictView::Done
        } else if self.iterations >= MAX_ITERATIONS {
            VerdictView::Failed("PulseAudio call exceeded 1000 iterations"@)
        } else if now.at_least_after(self.started, DEADLINE_MS as int) {
            VerdictView::Failed("PulseAudio call exceeded 250ms deadline"@)
        } else {
            VerdictView::Iterate
        }
    }

    /// Why an iteration ends the wait, if it does. `not_ready` names the state
    /// of the connection where it is not the usual one: an iteration can
    /// succeed on a connection that is gone.
    pub open spec fn failure(outcome: Iterated, not_ready: Option<String>) -> Option<Seq<char>> {
        match outcome {
            Iterated::Error(e) => Some("PulseAudio mainloop error: "@ + e@),
            Iterated::Quit => Some("PulseAudio mainloop quit"@),
            Iterated::Success => match not_ready {
                Some(state) => Some("PulseAudio context not ready: "@ + state@),
                None => None,
            },
        }
    }

    /// Starts a wait.
    pub fn start(now: Instant) -> (r: Wait)
        ensures
            r == (Wait { started: now, iterations: 0 }),
    {
        Wait { started: now, iterations: 0 }
    }

    /// What the wait comes to before an iteration, where `done` says whether
    /// the answer is there.
    pub fn check(&self, done: bool, now: Instant) -> (r: Verdict)
        ensures
            r@ == self.verdict(done, now),
    {
        if done {
            Verdict::Done
        } else if self.iterations >= MAX_ITERATIONS {
            Verdict::Failed("PulseAudio call exceeded 1000 iterations".to_owned())
        } else if now.reached(self.started, DEADLINE_MS) {
            Verdict::Failed("PulseAudio call exceeded 250ms deadline".to_owned())
        } else {
            Verdict::Iterate
        }
    }

    /// Counts an iteration. An error ends the wait.
    pub fn iterated(&mut self, outcome: Iterated, not_ready: Option<String>) -> (r: Result<
        (),
        String,
    >)
        requires
            old(self).iterations < MAX_ITERATIONS,
        ensures
            final(self).started == old(self).started,
            final(self).iterations == old(self).iterations + 1,
            match r {
                Ok(_) => Wait::failure(outcome, not_ready) is None,
                Err(m) => Wait::failure(outcome, not_ready) == Some(m@),
            },
    {
        self.iterations = self.iterations + 1;
        match outcome {
            Iterated::Error(e) => {
                let mut m = "PulseAudio mainloop error: ".to_owned();
                m.append(e.as_str());
                Err(m)
            },
            Iterated::Quit => Err("PulseAudio mainloop quit".to_owned()),
            Iterated::Success => match not_ready {
                Some(state) => {
                    let mut m = "PulseAudio context not ready: ".to_owned();
                    m.append(state.as_str());
                    Err(m)
                },
                None => Ok(()),
            },
        }
    }
}

/// A wait is over after as many iterations as it may take, or once its
/// deadline has passed, whatever the answer does; and an answer that is there
/// counts, however late it came.
pub proof fn law_waits_end(w: Wait, done: bool, now: Instant)
    ensures
        w.iterations >= MAX_ITERATIONS || now.at_least_after(w.started, DEADLINE_MS as int)
            ==> !(w.verdict(done, now) is Iterate),
        done <==> w.verdict(done, now) is Done,
{
}

/// The outcome of a write, from the wait for its acknowledgement and the
/// acknowledgement itself.
pub fn write_outcome(waited: Result<(), String>, acknowledged: Option<bool>) -> (r: Result<
    bool,
    String,
>)
    ensures
        match waited {
            Err(m) => r is Err && r->Err_0@ == m@,
            Ok(_) => match acknowledged {
                Some(accepted) => r == Ok::<bool, String>(accepted),
                None => r is Err && r->Err_0@ == "PA write did not complete"@,
            },
        },
{
    match waited {
        Err(m) => Err(m),
        Ok(_) => match acknowledged {
            Some(accepted) => Ok(accepted),
            None => Err("PA write did not complete".to_owned()),
        },
    }
}

/// The state of a connection to PulseAudio.
#[derive(Debug, Clone, Copy, PartialEq, Eq, Structural)]
pub enum ContextState {
    Ready,
    Failed,
    Terminated,
    /// Still on its way.
    Other,
}

/// What a connection comes to after an iteration.
pub open spec fn connection_verdict(outcome: Iterated, state: ContextState) -> VerdictView {
    match outcome {
        Iterated::Error(e) => VerdictView::Failed("mainloop iterate error: "@ + e@),
        Iterated::Quit => VerdictView::Failed("mainloop quit unexpectedly"@),
        Iterated::Success => match state {
            ContextState::Ready => VerdictView::Done,
            ContextState::Failed => VerdictView::Failed("PulseAudio connection failed"@),
            ContextState::Terminated => VerdictView::Failed("PulseAudio connection failed"@),
            ContextState::Other => VerdictView::Iterate,
        },
    }
}

/// What a connection comes to after an iteration.
pub fn connect_step(outcome: Iterated, state: ContextState) -> (r: Verdict)
    ensures
        r@ == connection_verdict(outcome, state),
{
    match outcome {
        Iterated::Error(e) => {
            let mut m = "mainloop iterate error: ".to_owned();
            m.append(e.as_str());
            Verdict::Failed(m)
        },
        Iterated::Quit => Verdict::Failed("mainloop quit unexpectedly".to_owned()),
        Iterated::Success => match state {
            ContextState::Ready => Verdict::Done,
            ContextState::Failed | ContextState::Terminated => Verdict::Failed(
                "PulseAudio connection failed".to_owned(),
            ),
            ContextState::Other => Verdict::Iterate,
        },
    }
}

/// What a new attempt to connect, begun at `started`, comes to after an
/// iteration. It blocks the controls, so it has a deadline.
pub open spec fn reconnection_verdict(
    outcome: Iterated,
    state: ContextState,
    started: Instant,
    now: Instant,
) -> VerdictView {
    match connection_verdict(outcome, state) {
        VerdictView::Iterate => if now.at_least_after(started, CONNECT_DEADLINE_MS as int) {
            VerdictView::Failed("PulseAudio connection exceeded 3s deadline"@)
        } else {
            VerdictView::Iterate
        },
        verdict => verdict,
    }
}

/// What a new attempt to connect, begun at `started`, comes to after an
/// iteration.
pub fn reconnect_step(
    outcome: Iterated,
    state: ContextState,
    started: Instant,
    now: Instant,
) -> (r: Verdict)
    ensures
        r@ == reconnection_verdict(outcome, state, started, now),
{
    match connect_step(outcome, state) {
        Verdict::Iterate => if now.reached(started, CONNECT_DEADLINE_MS) {
            Verdict::Failed("PulseAudio connection exceeded 3s deadline".to_owned())
        } else {
            Verdict::Iterate
        },
        verdict => verdict,
    }
}

/// A new attempt to connect goes on for no more than three seconds, and before
/// that only a connection that failed ends it without success.
pub proof fn law_reconnections_end(
    outcome: Iterated,
    state: ContextState,
    started: Instant,
    now: Instant,
)
    ensures
        now.at_least_after(started, 3000) ==> !(reconnection_verdict(outcome, state, started, now)
            is Iterate),
        !now.at_least_after(started, 3000) ==> reconnection_verdict(outcome, state, started, now)
            == connection_verdict(outcome, state),
        reconnection_verdict(outcome, state, started, now) is Done <==> connection_verdict(
            outcome,
            state,
        ) is Done,
{
}

/// A wait goes on until the answer is there, for a thousand iterations and a
/// quarter of a second at most; where it ends without one it says which of the
/// two it was. An iteration that fails ends it with the reason, and one that
/// succeeds does so only where the connection is no longer ready.
pub proof fn law_waits_have_their_limits(w: Wait, now: Instant, error: String, state: String)
    ensures
        ({
            let late = now.nanos >= w.started.nanos + 250_000_000;
            &&& w.iterations < 1000 && !late <==> w.verdict(false, now) is Iterate
            &&& w.iterations >= 1000 ==> w.verdict(false, now) == VerdictView::Failed(
                "PulseAudio call exceeded 1000 iterations"@,
            )
            &&& w.iterations < 1000 && late ==> w.verdict(false, now) == VerdictView::Failed(
                "PulseAudio call exceeded 250ms deadline"@,
            )
            &&& w.verdict(true, now) is Done
        }),
        forall|s: Option<String>|
            #[trigger] Wait::failure(Iterated::Error(error), s) == Some(
                "PulseAudio mainloop error: "@ + error@,
            ),
        forall|s: Option<String>|
            #[trigger] Wait::failure(Iterated::Quit, s) == Some("PulseAudio mainloop quit"@),
        Wait::failure(Iterated::Success, None) is None,
        Wait::failure(Iterated::Success, Some(state)) == Some(
            "PulseAudio context not ready: "@ + state@,
        ),
        MAX_ITERATIONS == 1000,
{
}

/// A connection stands once an iteration succeeds and it is ready; it has
/// failed where the iteration has, or where it is gone; else it goes on, on a
/// new attempt for three seconds at most.
pub proof fn law_connections_stand_when_ready(
    state: ContextState,
    error: String,
    started: Instant,
    now: Instant,
)
    ensures
        ({
            let v = connection_verdict(Iterated::Success, state);
            &&& v is Done <==> state == ContextState::Ready
            &&& v is Iterate <==> state == ContextState::Other
            &&& state == ContextState::Failed || state == ContextState::Terminated ==> v
                == VerdictView::Failed("PulseAudio connection failed"@)
            &&& connection_verdict(Iterated::Error(error), state) == VerdictView::Failed(
                "mainloop iterate error: "@ + error@,
            )
            &&& connection_verdict(Iterated::Quit, state) == VerdictView::Failed(
                "mainloop quit unexpectedly"@,
            )
        }),
        reconnection_verdict(Iterated::Success, ContextState::Other, started, now) == if now.nanos
            >= started.nanos + 3_000_000_000 {
            VerdictView::Failed("PulseAudio connection exceeded 3s deadline"@)
        } else {
            VerdictView::Iterate
        },
        forall|outcome: Iterated|
            !(outcome is Success) || state != ContextState::Other ==> #[trigger]
            reconnection_verdict(outcome, state, started, now) == connection_verdict(
                outcome,
                state,
            ),
{
}

} // verus!
