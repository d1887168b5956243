//! Waiting times that double up to a ceiling.
use vstd::prelude::*;

verus! {

/// A waiting time that doubles with every use, up to a ceiling.
#[derive(Debug, Clone, Copy, PartialEq, Eq, Structural)]
pub struct Backoff {
    next: u64,
    initial: u64,
    max: u64,
}

/// The content of a [`Backoff`], in seconds.
pub struct BackoffView {
    /// The next waiting time.
    pub next: nat,
    pub initial: nat,
    pub max: nat,
}

impl View for Backoff {
    type V = BackoffView;

    closed spec fn view(&self) -> BackoffView {
        BackoffView { next: self.next as nat, initial: self.initial as nat, max: self.max as nat }
    }
}

impl BackoffView {
    /// A backoff that has not waited yet.
    pub open spec fn fresh(initial: nat, max: nat) -> BackoffView {
        BackoffView { next: initial, initial, max }
    }

    /// After one more wait.
    pub open spec fn doubled(self) -> BackoffView {
        BackoffView {
            next: if 2 * self.next <= self.max {
                2 * self.next
            } else {
                self.max
            },
            ..self
        }
    }

    /// After `n` more waits.
    pub open spec fn after_waits(self, n: nat) -> BackoffView
        decreases n,
    {
        if n == 0 {
            self
        } else {
            self.after_waits((n - 1) as nat).doubled()
        }
    }

    /// Back at the start.
    pub open spec fn restarted(self) -> BackoffView {
        BackoffView { next: self.initial, ..self }
    }
}

impl Backoff {
    #[verifier::type_invariant]
    spec fn ordered(self) -> bool {
        self.initial <= self.max && self.next <= self.max && 2 * self.max <= u64::MAX
    }

    /// A backoff from `initial` to `max` seconds.
    pub fn new(initial: u64, max: u64) -> (r: Backoff)
        requires
            initial <= max,
            2 * max <= u64::MAX,
        ensures
            r@ == BackoffView::fresh(initial as nat, max as nat),
    {
        Backoff { next: initial, initial, max }
    }

    /// How long to wait now.
    pub fn wait(&mut self) -> (secs: u64)
        ensures
            secs == old(self)@.next,
            final(self)@ == old(self)@.doubled(),
        no_unwind
    {
        proof {
            use_type_invariant(&*self);
        }
        let secs = self.next;
        let double = secs * 2;
        self.next = if double <= self.max {
            double
        } else {
            self.max
        };
        secs
    }

    /// Starts over with the shortest waiting time.
    pub fn reset(&mut self)
        ensures
            final(self)@ == old(self)@.restarted(),
        no_unwind
    {
        proof {
            use_type_invariant(&*self);
        }
        self.next = self.initial;
    }
}

/// Waiting times never fall, never pass the ceiling, and stay at it once they
/// have reached it.
pub proof fn law_waits_grow_to_the_ceiling(b: BackoffView, n: nat, m: nat)
    requires
        b.next <= b.max,
        n <= m,
    ensures
        b.after_waits(n).next <= b.after_waits(m).next <= b.max,
        b.after_waits(n).next == b.max ==> b.after_waits(m).next == b.max,
        b.after_waits(m).max == b.max,
        b.after_waits(m).initial == b.initial,
    decreases m,
{
    if m > 0 {
        if n < m {
            law_waits_grow_to_the_ceiling(b, n, (m - 1) as nat);
        } else {
            law_waits_grow_to_the_ceiling(b, (m - 1) as nat, (m - 1) as nat);
        }
    }
}

/// The first wait is the shortest one. Each wait is twice the one before, but
/// where that is longer than the longest one it is the longest one. After a
/// reset the waits begin anew.
pub proof fn law_waits_double(initial: nat, max: nat, b: BackoffView)
    ensures
        BackoffView::fresh(initial, max).next == initial,
        BackoffView::fresh(initial, max).initial == initial,
        BackoffView::fresh(initial, max).max == max,
        b.next + b.next <= b.max ==> b.doubled().next == b.next + b.next,
        b.next + b.next >= b.max ==> b.doubled().next == b.max,
        b.doubled().initial == b.initial && b.doubled().max == b.max,
        b.restarted() == BackoffView::fresh(b.initial, b.max),
{
}

} // verus!
