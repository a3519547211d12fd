//! Outcome classification and breaker bookkeeping for the outbound request
//! engine. The engine issues no I/O itself: a caller asks `prepare` whether
//! the authority's breaker admits the request, performs the exchange, and
//! reports what happened through `record_status` or `record_transport_failure`.
use vstd::prelude::*;
use vstd::hash_map::StringHashMap;

use crate::breaker::Breaker;
use crate::error::ErrorKind;
use crate::last_online::LastOnline;

verus! {

/// Maximum bytes of a JSON body.
pub const JSON_SIZE_LIMIT: usize = 1048576;

/// Maximum bytes of a media body.
pub const MEDIA_SIZE_LIMIT: usize = 16777216;

/// What counts as a successful response for the caller's purpose.
#[derive(Clone, Copy, Debug, PartialEq, Eq, Structural)]
pub enum BreakerStrategy {
    /// Only a 2xx status is success.
    Require2XX,
    /// Success is 2xx, or any status of 401 and above: an authenticated
    /// rejection from an inbox probe still proves the peer alive.
    Allow401AndAbove,
    /// Success is any status of 404 and below: a missing media file is
    /// no reason to trip the breaker.
    Allow404AndBelow,
}

/// Whether `status` counts as success under `strategy`.
pub open spec fn spec_succeeds(strategy: BreakerStrategy, status: u16) -> bool {
    match strategy {
        BreakerStrategy::Require2XX => 200 <= status < 300,
        BreakerStrategy::Allow401AndAbove => 200 <= status < 300 || status >= 401,
        BreakerStrategy::Allow404AndBelow => status <= 404,
    }
}

pub fn succeeds(strategy: BreakerStrategy, status: u16) -> (r: bool)
    ensures
        r == spec_succeeds(strategy, status),
{
    match strategy {
        BreakerStrategy::Require2XX => 200 <= status && status < 300,
        BreakerStrategy::Allow401AndAbove => (200 <= status && status < 300) || status >= 401,
        BreakerStrategy::Allow404AndBelow => status <= 404,
    }
}

/// Breaker and liveness state of the request engine, keyed by authority.
pub struct Requests {
    breakers: StringHashMap<Breaker>,
    last_online: LastOnline,
}

impl Requests {
    pub closed spec fn breakers(self) -> Map<Seq<char>, Breaker> {
        self.breakers@
    }

    pub closed spec fn last_online(self) -> Map<Seq<char>, u64> {
        self.last_online@
    }

    /// The liveness record itself, for its own well-formedness.
    pub closed spec fn last_online_record(self) -> LastOnline {
        self.last_online
    }

    /// Every tracked breaker is well formed, and the liveness record keeps
    /// its enumerable key order.
    pub open spec fn wf(self) -> bool {
        &&& forall|a: Seq<char>|
            self.breakers().contains_key(a) ==> #[trigger] self.breakers()[a].wf()
        &&& self.last_online_record().wf()
    }

    /// The breaker that governs `authority`: the tracked one, or a fresh
    /// closed breaker for an authority never seen.
    pub open spec fn breaker_of(self, authority: Seq<char>) -> Breaker {
        if self.breakers().contains_key(authority) {
            self.breakers()[authority]
        } else {
            Breaker::Closed { failures: 0 }
        }
    }

    pub fn new() -> (r: Self)
        ensures
            r.breakers() == Map::<Seq<char>, Breaker>::empty(),
            r.last_online() == Map::<Seq<char>, u64>::empty(),
            r.wf(),
    {
        Requests { breakers: StringHashMap::new(), last_online: LastOnline::empty() }
    }

    /// Ask whether a request to `authority` arriving at `now` may be issued.
    /// `Err(Breaker)` means the breaker refused it and no I/O happened.
    pub fn prepare(&mut self, authority: &str, now: u64) -> (r: Result<(), ErrorKind>)
        requires
            old(self).wf(),
        ensures
            final(self).wf(),
            ({
                let (permit, after) = old(self).breaker_of(authority@).spec_should_try(now);
                &&& (r is Ok) == permit
                &&& r matches Err(e) ==> e == ErrorKind::Breaker
                &&& final(self).breakers() == old(self).breakers().insert(authority@, after)
                &&& final(self).last_online() == old(self).last_online()
            }),
    {
        let mut b = match self.breakers.get(authority) {
            Some(b) => *b,
            None => Breaker::new(),
        };
        let permit = b.should_try(now);
        self.breakers.insert(authority.to_owned(), b);
        if permit {
            Ok(())
        } else {
            Err(ErrorKind::Breaker)
        }
    }

    /// Report the status code a request to `authority` came back with. The
    /// authority answered, so it is marked seen whatever the status; the
    /// breaker records success or failure under `strategy`, and a failing
    /// status surfaces as `ErrorKind::Status`.
    pub fn record_status(
        &mut self,
        authority: &str,
        strategy: BreakerStrategy,
        status: u16,
        now: u64,
    ) -> (r: Result<(), ErrorKind>)
        requires
            old(self).wf(),
        ensures
            final(self).wf(),
            final(self).last_online() == old(self).last_online().insert(authority@, now),
            spec_succeeds(strategy, status) ==> {
                &&& r is Ok
                &&& final(self).breakers() == old(self).breakers().insert(
                    authority@,
                    old(self).breaker_of(authority@).spec_succeed(),
                )
            },
            !spec_succeeds(strategy, status) ==> {
                &&& r matches Err(ErrorKind::Status(a, c)) && a@ == authority@ && c == status
                &&& final(self).breakers() == old(self).breakers().insert(
                    authority@,
                    old(self).breaker_of(authority@).spec_fail(now),
                )
            },
    {
        self.last_online.mark_seen(authority, now);
        let mut b = match self.breakers.get(authority) {
            Some(b) => *b,
            None => Breaker::new(),
        };
        if succeeds(strategy, status) {
            b.succeed();
            self.breakers.insert(authority.to_owned(), b);
            Ok(())
        } else {
            b.fail(now);
            self.breakers.insert(authority.to_owned(), b);
            Err(ErrorKind::Status(authority.to_owned(), status))
        }
    }

    /// Report that the request to `authority` could not be exchanged at all.
    /// The attempt is a non-breaker outcome, so the authority is still marked
    /// seen; the breaker records a failure.
    pub fn record_transport_failure(
        &mut self,
        authority: &str,
        detail: String,
        now: u64,
    ) -> (r: ErrorKind)
        requires
            old(self).wf(),
        ensures
            final(self).wf(),
            final(self).last_online() == old(self).last_online().insert(authority@, now),
            final(self).breakers() == old(self).breakers().insert(
                authority@,
                old(self).breaker_of(authority@).spec_fail(now),
            ),
            r matches ErrorKind::SendRequest(a, d) && a@ == authority@ && d == detail,
    {
        self.last_online.mark_seen(authority, now);
        let mut b = match self.breakers.get(authority) {
            Some(b) => *b,
            None => Breaker::new(),
        };
        b.fail(now);
        self.breakers.insert(authority.to_owned(), b);
        ErrorKind::SendRequest(authority.to_owned(), detail)
    }

    /// Every authority seen since the last drain, with when, for the admin
    /// listing.
    pub fn last_online_snapshot(&self) -> (r: Vec<(String, u64)>)
        requires
            self.wf(),
        ensures
            forall|i: int|
                0 <= i < r@.len() ==> self.last_online().contains_pair(
                    (#[trigger] r@[i]).0@,
                    r@[i].1,
                ),
            forall|k: Seq<char>| #[trigger]
                self.last_online().contains_key(k) ==> exists|i: int|
                    0 <= i < r@.len() && (#[trigger] r@[i]).0@ == k,
    {
        let r = self.last_online.snapshot();
        proof {
            assert forall|k: Seq<char>| #[trigger]
                self.last_online().contains_key(k) implies exists|i: int|
                0 <= i < r@.len() && (#[trigger] r@[i]).0@ == k by {
                let i = self.last_online_record().order_seq().lemma_contains_to_index(k);
                assert(r@[i].0@ == k);
            }
        }
        r
    }

    /// Drain the liveness pairs for the periodic background flush.
    pub fn take_last_online(&mut self) -> (r: Vec<(String, u64)>)
        requires
            old(self).wf(),
        ensures
            final(self).wf(),
            forall|i: int|
                0 <= i < r@.len() ==> old(self).last_online().contains_pair(
                    (#[trigger] r@[i]).0@,
                    r@[i].1,
                ),
            forall|k: Seq<char>| #[trigger]
                old(self).last_online().contains_key(k) ==> exists|i: int|
                    0 <= i < r@.len() && (#[trigger] r@[i]).0@ == k,
            final(self).last_online() == Map::<Seq<char>, u64>::empty(),
            final(self).breakers() == old(self).breakers(),
    {
        let r = self.last_online.take();
        proof {
            assert forall|a: Seq<char>| self.breakers().contains_key(a)
                implies #[trigger] self.breakers()[a].wf() by {
                assert(old(self).breakers()[a].wf());
            }
        }
        r
    }
}

} // verus!
