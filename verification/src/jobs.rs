//! The durable job system: jobs carry their kind, attempt count and next run
//! time; workers claim one job under a lease, run it, and either complete it
//! (deleted), fail it (rescheduled with exponential backoff or dead-lettered
//! by the error classification), or lose the lease (the job becomes claimable
//! again) — which makes every job run at least once.
use vstd::prelude::*;

use crate::error::{ErrorKind, Retry};
use crate::strvec;

verus! {

/// A delivery is retried at most this many times.
pub const MAX_ATTEMPTS: u64 = 8;

/// First backoff delay, in seconds.
pub const BACKOFF_BASE_SECONDS: u64 = 10;

/// Backoff never exceeds a day.
pub const BACKOFF_CAP_SECONDS: u64 = 86400;

/// Two to the `n`.
pub open spec fn pow2(n: nat) -> nat
    decreases n,
{
    if n == 0 {
        1
    } else {
        2 * pow2((n - 1) as nat)
    }
}

/// The backoff before retry number `attempt + 1`: exponential from ten
/// seconds, capped at a day.
pub open spec fn spec_backoff(attempt: nat) -> nat {
    if BACKOFF_BASE_SECONDS * pow2(attempt) > BACKOFF_CAP_SECONDS {
        BACKOFF_CAP_SECONDS as nat
    } else {
        (BACKOFF_BASE_SECONDS * pow2(attempt)) as nat
    }
}

/// Once the backoff hits its cap it stays there.
proof fn lemma_backoff_capped(attempt: nat)
    requires
        spec_backoff(attempt) == BACKOFF_CAP_SECONDS,
    ensures
        spec_backoff(attempt + 1) == BACKOFF_CAP_SECONDS,
{
    if BACKOFF_BASE_SECONDS * pow2(attempt) <= BACKOFF_CAP_SECONDS {
        assert(BACKOFF_BASE_SECONDS * pow2(attempt + 1) == 2 * (BACKOFF_BASE_SECONDS * pow2(
            attempt,
        )));
    }
}

/// The backoff delay before retry number `attempt + 1`.
pub fn backoff_seconds(attempt: u64) -> (r: u64)
    ensures
        r == spec_backoff(attempt as nat),
{
    let mut v: u64 = BACKOFF_BASE_SECONDS;
    let mut i: u64 = 0;
    while i < attempt && v < BACKOFF_CAP_SECONDS
        invariant
            0 <= i <= attempt || attempt < i,
            i <= attempt,
            v == spec_backoff(i as nat),
            v <= BACKOFF_CAP_SECONDS,
        decreases attempt - i,
    {
        if v > BACKOFF_CAP_SECONDS / 2 {
            v = BACKOFF_CAP_SECONDS;
        } else {
            v = v * 2;
        }
        proof {
            let n = i as nat;
            if BACKOFF_BASE_SECONDS * pow2(n) > BACKOFF_CAP_SECONDS {
                assert(false);
            } else {
                assert(BACKOFF_BASE_SECONDS * pow2(n + 1) == 2 * (BACKOFF_BASE_SECONDS * pow2(n)));
            }
        }
        i = i + 1;
    }
    proof {
        if i < attempt {
            // the cap was reached early and never moves again
            lemma_backoff_stays(i as nat, attempt as nat);
        }
    }
    v
}

/// From any point where the backoff equals the cap, it equals the cap at
/// every later attempt.
proof fn lemma_backoff_stays(from: nat, to: nat)
    requires
        from <= to,
        spec_backoff(from) == BACKOFF_CAP_SECONDS,
    ensures
        spec_backoff(to) == BACKOFF_CAP_SECONDS,
    decreases to - from,
{
    if from < to {
        lemma_backoff_capped(from);
        lemma_backoff_stays(from + 1, to);
    }
}

/// An activity the relay itself sends out.
pub enum OutboundActivity {
    /// The relay accepts a Follow: the original follow is echoed as the
    /// object.
    Accept { id: String, actor: String, follow_actor: String, follow_object: String },
    /// The relay announces an object to its followers.
    Announce { id: String, actor: String, object: String, to: String },
    /// A foreign activity forwarded byte-for-byte.
    Raw { json: String },
}

impl OutboundActivity {
    /// An equal activity built from fresh strings.
    pub fn duplicate(&self) -> (r: Self)
        ensures
            r == *self,
    {
        match self {
            OutboundActivity::Accept { id, actor, follow_actor, follow_object } => {
                OutboundActivity::Accept {
                    id: id.clone(),
                    actor: actor.clone(),
                    follow_actor: follow_actor.clone(),
                    follow_object: follow_object.clone(),
                }
            },
            OutboundActivity::Announce { id, actor, object, to } => {
                OutboundActivity::Announce {
                    id: id.clone(),
                    actor: actor.clone(),
                    object: object.clone(),
                    to: to.clone(),
                }
            },
            OutboundActivity::Raw { json } => OutboundActivity::Raw { json: json.clone() },
        }
    }
}

/// What a job does when a worker runs it.
pub enum JobKind {
    /// Wrap `object_id` in an Announce and fan it out, skipping the origin.
    Announce { object_id: String, origin_inbox: String },
    /// Fan an activity out to many inboxes, one Deliver job each.
    DeliverMany { inboxes: Vec<String>, activity: OutboundActivity },
    /// Deliver one activity to one inbox.
    Deliver { inbox: String, activity: OutboundActivity },
    /// Refresh the instance metadata of one actor.
    QueryInstance { actor_id: String },
    /// Refresh the nodeinfo of one actor.
    QueryNodeinfo { actor_id: String },
    /// Prefetch the bytes behind one media id.
    CacheMedia { media_id: String },
    /// Drop a follower whose inbox is gone.
    Unfollow { actor_id: String },
    /// Enqueue a metadata refresh for every connected authority.
    Listeners,
}

/// The two work queues.
#[derive(Clone, Copy, Debug, PartialEq, Eq, Structural)]
pub enum Queue {
    /// Outbound deliveries.
    Deliver,
    /// ActivityPub bookkeeping and refreshes.
    Apub,
}

/// Which queue each kind runs on.
pub open spec fn spec_queue_of(kind: JobKind) -> Queue {
    match kind {
        JobKind::DeliverMany { .. } | JobKind::Deliver { .. } | JobKind::CacheMedia { .. } => {
            Queue::Deliver
        },
        _ => Queue::Apub,
    }
}

pub fn queue_of(kind: &JobKind) -> (r: Queue)
    ensures
        r == spec_queue_of(*kind),
{
    match kind {
        JobKind::DeliverMany { .. } | JobKind::Deliver { .. } | JobKind::CacheMedia { .. } => {
            Queue::Deliver
        },
        _ => Queue::Apub,
    }
}

/// A persisted job.
pub struct QueuedJob {
    /// Unique within the queue's lifetime.
    pub id: u64,
    pub queue: Queue,
    pub kind: JobKind,
    /// Failed runs so far.
    pub attempt: u64,
    /// Earliest time a worker may claim it, in seconds.
    pub next_run_at: u64,
    /// While set and in the future, some worker holds the job.
    pub leased_until: Option<u64>,
}

/// A job is claimable at `now` when it is due and no live lease covers it —
/// a crashed worker's lease simply expires.
pub open spec fn eligible(j: QueuedJob, now: u64) -> bool {
    &&& j.next_run_at <= now
    &&& match j.leased_until {
        None => true,
        Some(t) => t <= now,
    }
}

/// What to do with a failed job.
#[derive(Clone, Copy, Debug, PartialEq, Eq, Structural)]
pub enum Disposition {
    /// Run it again: `delay` seconds from now, with the given attempt count.
    Requeue { delay: u64, attempt: u64 },
    /// Give up on it.
    DeadLetter,
}

/// The fate of a job that failed with `e` on its `attempt`-th attempt:
/// non-retryable errors are dead-lettered, a canceled run is retried at once
/// without counting, and the rest back off exponentially until the attempts
/// run out.
pub open spec fn spec_disposition(e: ErrorKind, attempt: u64) -> Disposition {
    match e.spec_retry() {
        Retry::Drop => Disposition::DeadLetter,
        Retry::Now => Disposition::Requeue { delay: 0, attempt },
        Retry::Backoff => if attempt + 1 >= MAX_ATTEMPTS {
            Disposition::DeadLetter
        } else {
            Disposition::Requeue {
                delay: spec_backoff(attempt as nat) as u64,
                attempt: (attempt + 1) as u64,
            }
        },
    }
}

pub fn disposition(e: &ErrorKind, attempt: u64) -> (r: Disposition)
    ensures
        r == spec_disposition(*e, attempt),
{
    match e.retry() {
        Retry::Drop => Disposition::DeadLetter,
        Retry::Now => Disposition::Requeue { delay: 0, attempt },
        Retry::Backoff => {
            if attempt >= MAX_ATTEMPTS - 1 {
                Disposition::DeadLetter
            } else {
                proof {
                    lemma_backoff_le_cap(attempt as nat);
                }
                Disposition::Requeue { delay: backoff_seconds(attempt), attempt: attempt + 1 }
            }
        },
    }
}

/// The backoff always fits in a day.
proof fn lemma_backoff_le_cap(attempt: nat)
    ensures
        spec_backoff(attempt) <= BACKOFF_CAP_SECONDS,
{
}

/// `now + delay`, saturating at the largest time.
pub open spec fn spec_at(now: u64, delay: u64) -> u64 {
    if now + delay > u64::MAX {
        u64::MAX
    } else {
        (now + delay) as u64
    }
}

fn at(now: u64, delay: u64) -> (r: u64)
    ensures
        r == spec_at(now, delay),
{
    if delay > u64::MAX - now {
        u64::MAX
    } else {
        now + delay
    }
}

/// The durable queue.
pub struct JobQueue {
    jobs: Vec<QueuedJob>,
    next_id: u64,
}

impl JobQueue {
    /// The persisted jobs, in order.
    pub closed spec fn jobs(self) -> Seq<QueuedJob> {
        self.jobs@
    }

    /// The id the next enqueued job gets.
    pub closed spec fn next_id(self) -> u64 {
        self.next_id
    }

    /// Ids are unique (every id is below the next to be handed out) and each
    /// job sits on the queue its kind belongs to.
    pub open spec fn wf(self) -> bool {
        &&& forall|i: int|
            0 <= i < self.jobs().len() ==> (#[trigger] self.jobs()[i]).id < self.next_id()
        &&& forall|i: int, j: int|
            0 <= i < j < self.jobs().len() ==> self.jobs()[i].id != self.jobs()[j].id
        &&& forall|i: int|
            0 <= i < self.jobs().len() ==> (#[trigger] self.jobs()[i]).queue == spec_queue_of(
                self.jobs()[i].kind,
            )
    }

    /// An empty queue.
    pub fn new() -> (r: Self)
        ensures
            r.wf(),
            r.jobs() == Seq::<QueuedJob>::empty(),
            r.next_id() == 0,
    {
        let r = JobQueue { jobs: Vec::new(), next_id: 0 };
        proof {
            assert(r.jobs() =~= Seq::<QueuedJob>::empty());
        }
        r
    }

    /// Persist a job, due at once, and hand back its id.
    pub fn enqueue(&mut self, kind: JobKind, now: u64) -> (r: u64)
        requires
            old(self).wf(),
            old(self).next_id() < u64::MAX,
        ensures
            final(self).wf(),
            r == old(self).next_id(),
            final(self).next_id() == old(self).next_id() + 1,
            final(self).jobs() == old(self).jobs().push(
                QueuedJob {
                    id: old(self).next_id(),
                    queue: spec_queue_of(kind),
                    kind,
                    attempt: 0,
                    next_run_at: now,
                    leased_until: None,
                },
            ),
    {
        let id = self.next_id;
        let queue = queue_of(&kind);
        self.jobs.push(
            QueuedJob { id, queue, kind, attempt: 0, next_run_at: now, leased_until: None },
        );
        self.next_id = self.next_id + 1;
        proof {
            assert forall|i: int, j: int|
                0 <= i < j < self.jobs().len() implies self.jobs()[i].id != self.jobs()[j].id by {
                if j == self.jobs().len() - 1 {
                    assert(old(self).jobs()[i].id < old(self).next_id());
                }
            }
        }
        id
    }

    /// Claim the first due, unleased job of `queue`, leasing it for
    /// `lease_seconds`. A worker that dies holds the lease only until it
    /// expires; then the job is claimable again, which makes every job run
    /// at least once. The claimed job's id is returned; `get_kind` reads its
    /// work.
    #[verifier::loop_isolation(false)]
    #[verifier::rlimit(100)]
    pub fn claim(&mut self, queue: Queue, now: u64, lease_seconds: u64) -> (r: Option<u64>)
        requires
            old(self).wf(),
        ensures
            final(self).wf(),
            final(self).next_id() == old(self).next_id(),
            r is None ==> *final(self) == *old(self) && forall|i: int|
                0 <= i < old(self).jobs().len() ==> !((#[trigger] old(self).jobs()[i]).queue
                    == queue && eligible(old(self).jobs()[i], now)),
            r matches Some(id) ==> exists|j: int|
                {
                    &&& 0 <= j < old(self).jobs().len()
                    &&& (#[trigger] old(self).jobs()[j]).queue == queue
                    &&& eligible(old(self).jobs()[j], now)
                    &&& forall|p: int|
                        0 <= p < j ==> !((#[trigger] old(self).jobs()[p]).queue == queue
                            && eligible(old(self).jobs()[p], now))
                    &&& id == old(self).jobs()[j].id
                    &&& final(self).jobs() == old(self).jobs().update(
                        j,
                        QueuedJob {
                            leased_until: Some(spec_at(now, lease_seconds)),
                            ..old(self).jobs()[j]
                        },
                    )
                },
    {
        let mut i: usize = 0;
        while i < self.jobs.len()
            invariant
                0 <= i <= self.jobs@.len(),
                *self == *old(self),
                forall|p: int|
                    0 <= p < i ==> !((#[trigger] self.jobs()[p]).queue == queue && eligible(
                        self.jobs()[p],
                        now,
                    )),
            decreases self.jobs@.len() - i,
        {
            let due = self.jobs[i].next_run_at <= now;
            let unleased = match self.jobs[i].leased_until {
                None => true,
                Some(t) => t <= now,
            };
            let same_queue = match (self.jobs[i].queue, queue) {
                (Queue::Deliver, Queue::Deliver) => true,
                (Queue::Apub, Queue::Apub) => true,
                _ => false,
            };
            if due && unleased && same_queue {
                let id = self.jobs[i].id;
                let until = at(now, lease_seconds);
                self.jobs[i].leased_until = Some(until);
                proof {
                    let j = i as int;
                    assert(old(self).jobs()[j].queue == queue && eligible(old(self).jobs()[j], now));
                    assert(id == old(self).jobs()[j].id);
                    assert(self.jobs() =~= old(self).jobs().update(
                        j,
                        QueuedJob { leased_until: Some(spec_at(now, lease_seconds)), ..old(
                            self,
                        ).jobs()[j] },
                    ));
                    assert forall|p: int, q: int|
                        0 <= p < q < self.jobs().len() implies self.jobs()[p].id
                        != self.jobs()[q].id by {
                        assert(old(self).jobs()[p].id == self.jobs()[p].id);
                        assert(old(self).jobs()[q].id == self.jobs()[q].id);
                    }
                }
                return Some(id);
            }
            i = i + 1;
        }
        None
    }

    /// Read the work of the job under `id`.
    pub fn get_kind(&self, id: u64) -> (r: Option<&JobKind>)
        ensures
            r matches Some(k) ==> exists|j: int|
                0 <= j < self.jobs().len() && (#[trigger] self.jobs()[j]).id == id && *k
                    == self.jobs()[j].kind,
            r is None ==> forall|j: int|
                0 <= j < self.jobs().len() ==> (#[trigger] self.jobs()[j]).id != id,
    {
        let mut i: usize = 0;
        while i < self.jobs.len()
            invariant
                0 <= i <= self.jobs@.len(),
                forall|p: int| 0 <= p < i ==> (#[trigger] self.jobs()[p]).id != id,
            decreases self.jobs@.len() - i,
        {
            if self.jobs[i].id == id {
                return Some(&self.jobs[i].kind);
            }
            i = i + 1;
        }
        None
    }

    /// Delete a finished job.
    #[verifier::loop_isolation(false)]
    #[verifier::rlimit(50)]
    pub fn complete(&mut self, id: u64)
        requires
            old(self).wf(),
        ensures
            final(self).wf(),
            final(self).next_id() == old(self).next_id(),
            (exists|j: int| 0 <= j < old(self).jobs().len() && (#[trigger] old(self).jobs()[j]).id
                == id) ==> exists|j: int|
                {
                    &&& 0 <= j < old(self).jobs().len()
                    &&& (#[trigger] old(self).jobs()[j]).id == id
                    &&& final(self).jobs() == old(self).jobs().remove(j)
                },
            !(exists|j: int| 0 <= j < old(self).jobs().len() && (#[trigger] old(self).jobs()[j]).id
                == id) ==> *final(self) == *old(self),
    {
        let mut i: usize = 0;
        while i < self.jobs.len()
            invariant
                *self == *old(self),
                0 <= i <= self.jobs@.len(),
                forall|p: int| 0 <= p < i ==> (#[trigger] self.jobs()[p]).id != id,
            decreases self.jobs@.len() - i,
        {
            if self.jobs[i].id == id {
                self.jobs.remove(i);
                proof {
                    let j = i as int;
                    old(self).jobs().remove_ensures(j);
                    assert(final(self).jobs() == old(self).jobs().remove(j));
                    assert forall|p: int, q: int|
                        0 <= p < q < self.jobs().len() implies self.jobs()[p].id
                        != self.jobs()[q].id by {
                        if q < j {
                        } else if p < j {
                            assert(self.jobs()[q] == old(self).jobs()[q + 1]);
                        } else {
                            assert(self.jobs()[p] == old(self).jobs()[p + 1]);
                            assert(self.jobs()[q] == old(self).jobs()[q + 1]);
                        }
                    }
                }
                return ;
            }
            i = i + 1;
        }
    }

    /// Record a failed run: the error's classification either reschedules
    /// the job — with its lease cleared, its attempt count advanced and its
    /// due time pushed out by the backoff — or dead-letters it.
    #[verifier::loop_isolation(false)]
    #[verifier::rlimit(50)]
    pub fn fail(&mut self, id: u64, e: &ErrorKind, now: u64)
        requires
            old(self).wf(),
        ensures
            final(self).wf(),
            final(self).next_id() == old(self).next_id(),
            (exists|j: int| 0 <= j < old(self).jobs().len() && (#[trigger] old(self).jobs()[j]).id
                == id) ==> exists|j: int|
                {
                    &&& 0 <= j < old(self).jobs().len()
                    &&& (#[trigger] old(self).jobs()[j]).id == id
                    &&& match spec_disposition(*e, old(self).jobs()[j].attempt) {
                        Disposition::DeadLetter => final(self).jobs() == old(self).jobs().remove(j),
                        Disposition::Requeue { delay, attempt } => final(self).jobs() == old(
                            self,
                        ).jobs().update(
                            j,
                            QueuedJob {
                                attempt,
                                next_run_at: spec_at(now, delay),
                                leased_until: None,
                                ..old(self).jobs()[j]
                            },
                        ),
                    }
                },
            !(exists|j: int| 0 <= j < old(self).jobs().len() && (#[trigger] old(self).jobs()[j]).id
                == id) ==> *final(self) == *old(self),
    {
        let mut i: usize = 0;
        while i < self.jobs.len()
            invariant
                *self == *old(self),
                0 <= i <= self.jobs@.len(),
                forall|p: int| 0 <= p < i ==> (#[trigger] self.jobs()[p]).id != id,
            decreases self.jobs@.len() - i,
        {
            if self.jobs[i].id == id {
                match disposition(e, self.jobs[i].attempt) {
                    Disposition::DeadLetter => {
                        self.jobs.remove(i);
                        proof {
                            let j = i as int;
                            old(self).jobs().remove_ensures(j);
                            assert forall|p: int, q: int|
                                0 <= p < q < self.jobs().len() implies self.jobs()[p].id
                                != self.jobs()[q].id by {
                                if q < j {
                                } else if p < j {
                                    assert(self.jobs()[q] == old(self).jobs()[q + 1]);
                                } else {
                                    assert(self.jobs()[p] == old(self).jobs()[p + 1]);
                                    assert(self.jobs()[q] == old(self).jobs()[q + 1]);
                                }
                            }
                        }
                    },
                    Disposition::Requeue { delay, attempt } => {
                        let due = at(now, delay);
                        self.jobs[i].attempt = attempt;
                        self.jobs[i].next_run_at = due;
                        self.jobs[i].leased_until = None;
                        proof {
                            let j = i as int;
                            assert(self.jobs() =~= old(self).jobs().update(
                                j,
                                QueuedJob {
                                    attempt,
                                    next_run_at: spec_at(now, delay),
                                    leased_until: None,
                                    ..old(self).jobs()[j]
                                },
                            ));
                            assert forall|p: int, q: int|
                                0 <= p < q < self.jobs().len() implies self.jobs()[p].id
                                != self.jobs()[q].id by {
                                assert(old(self).jobs()[p].id == self.jobs()[p].id);
                                assert(old(self).jobs()[q].id == self.jobs()[q].id);
                            }
                        }
                    },
                }
                return ;
            }
            i = i + 1;
        }
    }
}

} // verus!
