//! Per-authority circuit breaker: trips open after ten consecutive failures,
//! cools down for thirty minutes, then admits a single half-open probe whose
//! outcome decides between closing again and a fresh cooldown.
use vstd::prelude::*;

verus! {

/// Consecutive failures that trip the breaker open.
pub const FAILURE_THRESHOLD: u64 = 10;

/// Seconds an open breaker waits before admitting a probe.
pub const COOLDOWN_SECONDS: u64 = 1800;

/// The breaker for one authority. All times are seconds.
#[derive(Clone, Copy, Debug, PartialEq, Eq, Structural)]
pub enum Breaker {
    /// Requests flow; `failures` consecutive failures seen so far.
    Closed { failures: u64 },
    /// Requests are refused until `opened_at + COOLDOWN_SECONDS`.
    Open { opened_at: u64 },
    /// One probe is in flight; further requests are refused.
    HalfOpen,
}

impl Breaker {
    /// A breaker is well formed when a closed breaker has not yet reached
    /// the failure threshold (reaching it trips the breaker open).
    pub open spec fn wf(self) -> bool {
        match self {
            Breaker::Closed { failures } => failures < FAILURE_THRESHOLD,
            _ => true,
        }
    }

    pub open spec fn is_open(self) -> bool {
        self is Open
    }

    pub open spec fn is_closed(self) -> bool {
        self is Closed
    }

    /// Whether a request arriving at `now` may be issued, and the breaker
    /// after that decision: a closed breaker admits every request, an open
    /// breaker admits nothing until the cooldown has elapsed and then becomes
    /// half-open to admit exactly one probe.
    pub open spec fn spec_should_try(self, now: u64) -> (bool, Breaker) {
        match self {
            Breaker::Closed { failures } => (true, self),
            Breaker::Open { opened_at } => if now >= opened_at + COOLDOWN_SECONDS {
                (true, Breaker::HalfOpen)
            } else {
                (false, self)
            },
            Breaker::HalfOpen => (false, self),
        }
    }

    /// The breaker after a success is recorded: consecutive-failure count
    /// resets; a successful half-open probe closes the breaker.
    pub open spec fn spec_succeed(self) -> Breaker {
        Breaker::Closed { failures: 0 }
    }

    /// The breaker after a failure is recorded at `now`: the tenth
    /// consecutive failure trips it open, and a failed half-open probe
    /// reopens it with a fresh cooldown.
    pub open spec fn spec_fail(self, now: u64) -> Breaker {
        match self {
            Breaker::Closed { failures } => if failures + 1 >= FAILURE_THRESHOLD {
                Breaker::Open { opened_at: now }
            } else {
                Breaker::Closed { failures: (failures + 1) as u64 }
            },
            Breaker::Open { opened_at } => self,
            Breaker::HalfOpen => Breaker::Open { opened_at: now },
        }
    }

    /// A fresh breaker: closed, no failures seen.
    pub fn new() -> (r: Breaker)
        ensures
            r == (Breaker::Closed { failures: 0u64 }),
            r.wf(),
    {
        Breaker::Closed { failures: 0 }
    }

    /// Decide whether a request arriving at `now` may be issued. When it may
    /// not, the caller fails with `ErrorKind::Breaker` without any network
    /// traffic.
    pub fn should_try(&mut self, now: u64) -> (r: bool)
        requires
            old(self).wf(),
        ensures
            (r, *final(self)) == old(self).spec_should_try(now),
            final(self).wf(),
    {
        match *self {
            Breaker::Closed { failures } => true,
            Breaker::Open { opened_at } => {
                if now >= opened_at && now - opened_at >= COOLDOWN_SECONDS {
                    *self = Breaker::HalfOpen;
                    true
                } else {
                    false
                }
            },
            Breaker::HalfOpen => false,
        }
    }

    /// Record a successful outcome.
    pub fn succeed(&mut self)
        ensures
            *final(self) == old(self).spec_succeed(),
            final(self).wf(),
    {
        *self = Breaker::Closed { failures: 0 };
    }

    /// Record a failed outcome observed at `now`.
    pub fn fail(&mut self, now: u64)
        requires
            old(self).wf(),
        ensures
            *final(self) == old(self).spec_fail(now),
            final(self).wf(),
    {
        match *self {
            Breaker::Closed { failures } => {
                if failures + 1 >= FAILURE_THRESHOLD {
                    *self = Breaker::Open { opened_at: now };
                } else {
                    *self = Breaker::Closed { failures: failures + 1 };
                }
            },
            Breaker::Open { opened_at } => {},
            Breaker::HalfOpen => {
                *self = Breaker::Open { opened_at: now };
            },
        }
    }
}

/// The breaker after `n` consecutive failures are recorded at `now`.
pub open spec fn fail_n(b: Breaker, n: nat, now: u64) -> Breaker
    decreases n,
{
    if n == 0 {
        b
    } else {
        fail_n(b, (n - 1) as nat, now).spec_fail(now)
    }
}

/// After ten consecutive failures a closed breaker is open, so the next
/// arrival is refused without I/O; once the cooldown has elapsed exactly one
/// probe is admitted.
pub proof fn lemma_breaker_trips(b: Breaker, n: nat, now: u64)
    requires
        b is Closed,
        b.wf(),
        b->failures + n >= FAILURE_THRESHOLD,
    ensures
        fail_n(b, n, now) == (Breaker::Open { opened_at: now }),
    decreases n,
{
    if n > 0 {
        let prev = fail_n(b, (n - 1) as nat, now);
        if b->failures + n == FAILURE_THRESHOLD {
            lemma_breaker_stays_closed(b, (n - 1) as nat, now);
            assert(prev == (Breaker::Closed { failures: (b->failures + n - 1) as u64 }));
        } else {
            lemma_breaker_trips(b, (n - 1) as nat, now);
        }
    }
}

/// Fewer failures than the threshold leave a closed breaker closed, with the
/// failures added up.
pub proof fn lemma_breaker_stays_closed(b: Breaker, n: nat, now: u64)
    requires
        b is Closed,
        b->failures + n < FAILURE_THRESHOLD,
    ensures
        fail_n(b, n, now) == (Breaker::Closed { failures: (b->failures + n) as u64 }),
    decreases n,
{
    if n > 0 {
        lemma_breaker_stays_closed(b, (n - 1) as nat, now);
    }
}

/// An open breaker refuses every arrival before the cooldown has elapsed,
/// and at the first arrival after it admits exactly one probe: the admitting
/// transition leaves the breaker half-open, which refuses all further
/// arrivals until the probe's outcome is recorded.
pub proof fn lemma_breaker_single_probe(opened_at: u64, early: u64, late: u64)
    requires
        early < opened_at + COOLDOWN_SECONDS,
        late >= opened_at + COOLDOWN_SECONDS,
    ensures
        (Breaker::Open { opened_at }).spec_should_try(early) == (false, Breaker::Open { opened_at }),
        (Breaker::Open { opened_at }).spec_should_try(late) == (true, Breaker::HalfOpen),
        Breaker::HalfOpen.spec_should_try(late) == (false, Breaker::HalfOpen),
{
}

} // verus!
