//! What the delivery jobs do: expand an accepted activity into an Announce,
//! fan it out to every listener inbox except the origin and the blocked,
//! and react to delivery failures — a tombstoned inbox undoes the follow.
//!
//! Ordering note: within the announce pipeline the activity cache is written
//! only after the fan-out job is enqueued, so a repeat arriving in between
//! still finds the object either uncached (and the announce job deduplicates
//! again) or cached (and is refused as a duplicate).
use vstd::prelude::*;
use vstd::hash_map::StringHashMap;

use crate::actor::ActorCache;
use crate::error::ErrorKind;
use crate::jobs::{JobKind, JobQueue, OutboundActivity, QueuedJob, spec_queue_of};
use crate::storage::Storage;
use crate::strvec;

verus! {

/// Object id → local activity id of the Announce wrapping it. An object in
/// this map is never re-announced.
pub struct ActivityCache {
    map: StringHashMap<String>,
}

impl ActivityCache {
    pub closed spec fn entries(self) -> Map<Seq<char>, String> {
        self.map@
    }

    pub fn new() -> (r: Self)
        ensures
            forall|k: Seq<char>| !r.entries().contains_key(k),
    {
        ActivityCache { map: StringHashMap::new() }
    }

    /// Whether `object_id` has already been announced.
    pub fn contains(&self, object_id: &str) -> (r: bool)
        ensures
            r == self.entries().contains_key(object_id@),
    {
        self.map.contains_key(object_id)
    }

    /// The local activity id announced for `object_id`, if any.
    pub fn get(&self, object_id: &str) -> (r: Option<String>)
        ensures
            r matches Some(a) ==> self.entries().contains_key(object_id@) && a@ == self.entries()[
                object_id@
            ]@,
            r is None ==> !self.entries().contains_key(object_id@),
    {
        match self.map.get(object_id) {
            Some(a) => Some(a.clone()),
            None => None,
        }
    }

    /// Record that `object_id` was announced as `activity_id`.
    pub fn cache(&mut self, object_id: &str, activity_id: String)
        ensures
            final(self).entries() == old(self).entries().insert(object_id@, activity_id),
    {
        self.map.insert(object_id.to_owned(), activity_id);
    }
}

/// `s` is the shared inbox of some unblocked listener, and not the origin.
pub open spec fn inbox_ok(storage: Storage, origin: Seq<char>, s: Seq<char>) -> bool {
    exists|a: Seq<char>|
        {
            &&& #[trigger] storage.listeners().contains_key(a)
            &&& !storage.blocked().contains(a)
            &&& s == storage.listeners()[a].inbox@
            &&& s != origin
        }
}

/// The inboxes an announce fans out to: every listener's shared inbox,
/// except inboxes on blocked authorities and the inbox the activity came
/// from.
#[verifier::loop_isolation(false)]
pub fn get_inboxes(storage: &Storage, origin_inbox: &str) -> (r: Vec<String>)
    requires
        storage.wf(),
    ensures
        forall|i: int|
            0 <= i < r@.len() ==> inbox_ok(*storage, origin_inbox@, #[trigger] r@[i]@),
        forall|a: Seq<char>| #[trigger]
            storage.listeners().contains_key(a) && !storage.blocked().contains(a)
                && storage.listeners()[a].inbox@ != origin_inbox@ ==> strvec::views(r@).contains(
                storage.listeners()[a].inbox@,
            ),
{
    let authorities = storage.connected_ids();
    let origin = origin_inbox.to_owned();
    let mut out: Vec<String> = Vec::new();
    let mut i: usize = 0;
    while i < authorities.len()
        invariant
            0 <= i <= authorities@.len(),
            origin@ == origin_inbox@,
            strvec::views(authorities@) == storage.authority_seqs(),
            forall|p: int|
                0 <= p < out@.len() ==> inbox_ok(*storage, origin_inbox@, #[trigger] out@[p]@),
            forall|p: int|
                0 <= p < i ==> {
                    let a = #[trigger] storage.authority_seqs()[p];
                    !storage.blocked().contains(a) && storage.listeners()[a].inbox@
                        != origin_inbox@ ==> strvec::views(out@).contains(
                        storage.listeners()[a].inbox@,
                    )
                },
        decreases authorities@.len() - i,
    {
        let authority = &authorities[i];
        proof {
            assert(storage.authority_seqs()[i as int] == authority@);
            assert(storage.listeners().contains_key(authority@));
        }
        if !storage.is_blocked(authority.as_str()) {
            match storage.listener_inbox(authority.as_str()) {
                Some(inbox) => {
                    if !(inbox == origin) {
                        let ghost pre = out@;
                        let ghost chosen = inbox@;
                        out.push(inbox);
                        proof {
                            assert forall|p: int|
                                0 <= p < out@.len() implies inbox_ok(
                                *storage,
                                origin_inbox@,
                                #[trigger] out@[p]@,
                            ) by {
                                if p < pre.len() {
                                    assert(out@[p] == pre[p]);
                                    assert(inbox_ok(*storage, origin_inbox@, pre[p]@));
                                } else {
                                    assert(out@[p]@ == chosen);
                                    assert(storage.listeners().contains_key(authority@)
                                        && !storage.blocked().contains(authority@) && out@[p]@
                                        == storage.listeners()[authority@].inbox@ && out@[p]@
                                        != origin_inbox@);
                                }
                            }
                            assert forall|p: int|
                                0 <= p < i + 1 implies {
                                let a = #[trigger] storage.authority_seqs()[p];
                                !storage.blocked().contains(a) && storage.listeners()[a].inbox@
                                    != origin_inbox@ ==> strvec::views(out@).contains(
                                    storage.listeners()[a].inbox@,
                                )
                            } by {
                                let a = storage.authority_seqs()[p];
                                if !storage.blocked().contains(a) && storage.listeners()[a].inbox@
                                    != origin_inbox@ {
                                    if p < i {
                                        let q = strvec::views(pre).lemma_contains_to_index(
                                            storage.listeners()[a].inbox@,
                                        );
                                        assert(strvec::views(out@)[q] == storage.listeners()[
                                            a
                                        ].inbox@);
                                    } else {
                                        assert(strvec::views(out@)[out@.len() - 1]
                                            == storage.listeners()[a].inbox@);
                                    }
                                }
                            }
                        }
                    }
                },
                None => {
                    proof {
                        assert(false);
                    }
                },
            }
        }
        i = i + 1;
    }
    proof {
        assert forall|a: Seq<char>| #[trigger]
            storage.listeners().contains_key(a) && !storage.blocked().contains(a)
                && storage.listeners()[a].inbox@ != origin_inbox@ implies strvec::views(
            out@,
        ).contains(storage.listeners()[a].inbox@) by {
            let p = storage.authority_seqs().lemma_contains_to_index(a);
        }
    }
    out
}

/// Run an Announce job: wrap `object_id` in an Announce attributed to the
/// relay, enqueue the fan-out, and only then record the object as announced.
/// An object already recorded is never announced again; rerunning the job —
/// at-least-once delivery reruns jobs — changes nothing.
pub fn perform_announce(
    storage: &Storage,
    activity_cache: &mut ActivityCache,
    queue: &mut JobQueue,
    object_id: &str,
    origin_inbox: &str,
    activity_id: String,
    relay_actor: String,
    followers: String,
    now: u64,
) -> (announced: bool)
    requires
        storage.wf(),
        old(queue).wf(),
        old(queue).next_id() < u64::MAX,
    ensures
        final(queue).wf(),
        final(queue).next_id() <= old(queue).next_id() + 1,
        announced == !old(activity_cache).entries().contains_key(object_id@),
        !announced ==> *final(queue) == *old(queue) && *final(activity_cache) == *old(
            activity_cache,
        ),
        announced ==> {
            &&& final(activity_cache).entries() == old(activity_cache).entries().insert(
                object_id@,
                activity_id,
            )
            &&& final(queue).jobs().len() == old(queue).jobs().len() + 1
            &&& forall|i: int|
                0 <= i < old(queue).jobs().len() ==> final(queue).jobs()[i] == old(queue).jobs()[i]
            &&& (final(queue).jobs().last().kind matches JobKind::DeliverMany {
                inboxes,
                activity,
            } && {
                &&& (activity matches OutboundActivity::Announce { id, actor, object, to } && {
                    &&& id == activity_id
                    &&& actor == relay_actor
                    &&& object@ == object_id@
                    &&& to == followers
                })
                &&& forall|i: int|
                    0 <= i < inboxes@.len() ==> inbox_ok(
                        *storage,
                        origin_inbox@,
                        #[trigger] inboxes@[i]@,
                    )
                &&& forall|a: Seq<char>| #[trigger]
                    storage.listeners().contains_key(a) && !storage.blocked().contains(a)
                        && storage.listeners()[a].inbox@ != origin_inbox@ ==> strvec::views(
                        inboxes@,
                    ).contains(storage.listeners()[a].inbox@)
            })
        },
{
    if activity_cache.contains(object_id) {
        return false;
    }
    let inboxes = get_inboxes(storage, origin_inbox);
    let announce = OutboundActivity::Announce {
        id: activity_id.clone(),
        actor: relay_actor,
        object: object_id.to_owned(),
        to: followers,
    };
    queue.enqueue(JobKind::DeliverMany { inboxes, activity: announce }, now);
    activity_cache.cache(object_id, activity_id);
    true
}

/// Run a DeliverMany job: one Deliver job per inbox, each carrying the same
/// activity, so the fan-out itself survives a crash.
pub fn perform_deliver_many(
    queue: &mut JobQueue,
    inboxes: &Vec<String>,
    activity: &OutboundActivity,
    now: u64,
)
    requires
        old(queue).wf(),
        old(queue).next_id() + inboxes@.len() <= u64::MAX,
    ensures
        final(queue).wf(),
        final(queue).next_id() <= old(queue).next_id() + inboxes@.len(),
        final(queue).jobs().len() == old(queue).jobs().len() + inboxes@.len(),
        forall|i: int|
            0 <= i < old(queue).jobs().len() ==> final(queue).jobs()[i] == old(queue).jobs()[i],
        forall|i: int|
            0 <= i < inboxes@.len() ==> {
                let j = #[trigger] final(queue).jobs()[old(queue).jobs().len() + i];
                &&& j.kind == (JobKind::Deliver { inbox: inboxes@[i], activity: *activity })
                &&& j.attempt == 0
                &&& j.next_run_at == now
                &&& j.leased_until is None
            },
{
    let mut i: usize = 0;
    while i < inboxes.len()
        invariant
            0 <= i <= inboxes@.len(),
            queue.wf(),
            queue.next_id() <= old(queue).next_id() + i,
            old(queue).next_id() + inboxes@.len() <= u64::MAX,
            queue.jobs().len() == old(queue).jobs().len() + i,
            forall|p: int|
                0 <= p < old(queue).jobs().len() ==> queue.jobs()[p] == old(queue).jobs()[p],
            forall|p: int|
                0 <= p < i ==> {
                    let j = #[trigger] queue.jobs()[old(queue).jobs().len() + p];
                    &&& j.kind == (JobKind::Deliver { inbox: inboxes@[p], activity: *activity })
                    &&& j.attempt == 0
                    &&& j.next_run_at == now
                    &&& j.leased_until is None
                },
        decreases inboxes@.len() - i,
    {
        queue.enqueue(
            JobKind::Deliver { inbox: inboxes[i].clone(), activity: activity.duplicate() },
            now,
        );
        i = i + 1;
    }
}

/// React to a failed delivery to `inbox`: a Gone response means the peer is
/// tombstoned, so whenever a persisted actor sits behind that inbox, an
/// Unfollow of it is scheduled. Everything else is left to the queue's retry
/// classification.
pub fn handle_deliver_failure(
    storage: &Storage,
    queue: &mut JobQueue,
    inbox: &str,
    e: &ErrorKind,
    now: u64,
) -> (unfollowed: bool)
    requires
        storage.wf(),
        old(queue).wf(),
        old(queue).next_id() < u64::MAX,
    ensures
        final(queue).wf(),
        final(queue).next_id() <= old(queue).next_id() + 1,
        (e matches ErrorKind::Status(_, 410u16)) && (exists|k: Seq<char>| #[trigger]
            storage.actors().contains_key(k) && storage.actors()[k].actor.inbox@ == inbox@)
            ==> unfollowed,
        unfollowed ==> (e matches ErrorKind::Status(_, 410u16)) && exists|k: Seq<char>|
            {
                &&& #[trigger] storage.actors().contains_key(k)
                &&& storage.actors()[k].actor.inbox@ == inbox@
                &&& final(queue).jobs() == old(queue).jobs().push(
                    QueuedJob {
                        id: old(queue).next_id(),
                        queue: spec_queue_of(
                            JobKind::Unfollow { actor_id: storage.actors()[k].actor.id },
                        ),
                        kind: JobKind::Unfollow { actor_id: storage.actors()[k].actor.id },
                        attempt: 0,
                        next_run_at: now,
                        leased_until: None,
                    },
                )
            },
        !unfollowed ==> *final(queue) == *old(queue),
        !(e matches ErrorKind::Status(_, 410u16)) ==> !unfollowed,
{
    if e.is_gone() {
        match storage.find_actor_by_inbox(inbox) {
            Some(actor) => {
                let ghost witness_actor = actor;
                queue.enqueue(JobKind::Unfollow { actor_id: actor.id }, now);
                proof {
                    let k = choose|k: Seq<char>| #[trigger]
                        storage.actors().contains_key(k) && witness_actor == storage.actors()[
                            k
                        ].actor && witness_actor.inbox@ == inbox@;
                    assert(storage.actors().contains_key(k));
                }
                true
            },
            None => {
                proof {
                    // no persisted actor has this inbox, so none is owed an
                    // unfollow
                    if exists|k: Seq<char>| #[trigger]
                        storage.actors().contains_key(k) && storage.actors()[k].actor.inbox@
                            == inbox@ {
                        let k = choose|k: Seq<char>| #[trigger]
                            storage.actors().contains_key(k) && storage.actors()[k].actor.inbox@
                                == inbox@;
                        assert(false);
                    }
                }
                false
            },
        }
    } else {
        false
    }
}

/// Run an Unfollow job: drop the follower and its row; the cascade inside
/// deletes the listener when it was the authority's last actor. Afterwards
/// the follower set no longer contains the actor.
pub fn perform_unfollow(cache: &mut ActorCache, storage: &mut Storage, actor_id: &str)
    requires
        old(cache).wf(),
        old(storage).wf(),
    ensures
        final(cache).wf(),
        final(storage).wf(),
        !final(storage).actors().contains_key(actor_id@),
        !final(cache).following().contains(actor_id@),
        final(storage).actors() == old(storage).actors().remove(actor_id@),
        final(cache).following() == old(cache).following().remove(actor_id@),
{
    match storage.get_actor(actor_id) {
        Some(actor) => {
            cache.unfollower(storage, &actor);
        },
        None => {
            cache.bust_follower(actor_id);
            proof {
                assert(final(storage).actors() =~= old(storage).actors().remove(actor_id@));
            }
        },
    }
}

/// Run the periodic Listeners job: a metadata refresh pair for every
/// connected id handed in. The ids must be full actor IRIs — the refresh
/// endpoints are built from their scheme and authority — so callers pass
/// the persisted actor ids, not bare authorities.
pub fn perform_listeners(queue: &mut JobQueue, connected: &Vec<String>, now: u64)
    requires
        old(queue).wf(),
        old(queue).next_id() + 2 * connected@.len() <= u64::MAX,
    ensures
        final(queue).wf(),
        final(queue).next_id() <= old(queue).next_id() + 2 * connected@.len(),
        final(queue).jobs().len() == old(queue).jobs().len() + 2 * connected@.len(),
        forall|i: int|
            0 <= i < old(queue).jobs().len() ==> final(queue).jobs()[i] == old(queue).jobs()[i],
        forall|p: int|
            0 <= p < connected@.len() ==> {
                &&& (#[trigger] final(queue).jobs()[old(queue).jobs().len() + 2 * p]).kind
                    == (JobKind::QueryInstance { actor_id: connected@[p] })
                &&& final(queue).jobs()[old(queue).jobs().len() + 2 * p + 1].kind
                    == (JobKind::QueryNodeinfo { actor_id: connected@[p] })
            },
{
    let mut i: usize = 0;
    while i < connected.len()
        invariant
            0 <= i <= connected@.len(),
            queue.wf(),
            queue.next_id() <= old(queue).next_id() + 2 * i,
            old(queue).next_id() + 2 * connected@.len() <= u64::MAX,
            queue.jobs().len() == old(queue).jobs().len() + 2 * i,
            forall|p: int|
                0 <= p < old(queue).jobs().len() ==> queue.jobs()[p] == old(queue).jobs()[p],
            forall|p: int|
                0 <= p < i ==> {
                    &&& (#[trigger] queue.jobs()[old(queue).jobs().len() + 2 * p]).kind
                        == (JobKind::QueryInstance { actor_id: connected@[p] })
                    &&& queue.jobs()[old(queue).jobs().len() + 2 * p + 1].kind
                        == (JobKind::QueryNodeinfo { actor_id: connected@[p] })
                },
        decreases connected@.len() - i,
    {
        queue.enqueue(JobKind::QueryInstance { actor_id: connected[i].clone() }, now);
        queue.enqueue(JobKind::QueryNodeinfo { actor_id: connected[i].clone() }, now);
        i = i + 1;
    }
}

} // verus!
