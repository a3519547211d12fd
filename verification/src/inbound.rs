//! The inbound validation state machine: a signed POST to the inbox passes
//! signature verification (with one key-rotation retry against a cached
//! key), then the allow/block policy, then dispatch by activity kind, and
//! ends as enqueued work or a rejection. Accepted activities answer 202
//! before any delivery happens.
use vstd::prelude::*;

use crate::actor::ActorCache;
use crate::deliver::{get_inboxes, inbox_ok, ActivityCache};
use crate::error::ErrorKind;
use crate::iri::{authority_of, authority_seq, spec_authority_of};
use crate::jobs::{JobKind, JobQueue, OutboundActivity};
use crate::storage::{Actor, ActorRow, Storage};
use crate::strvec;

verus! {

/// The policy engine runs in exactly one of two modes: either only allowed
/// authorities federate, or all but the blocked ones do.
#[derive(Clone, Copy, Debug, PartialEq, Eq, Structural)]
pub enum PolicyMode {
    AllowList,
    BlockList,
}

/// Whether policy admits the authority.
pub open spec fn spec_policy_ok(mode: PolicyMode, storage: Storage, authority: Seq<char>) -> bool {
    match mode {
        PolicyMode::AllowList => storage.allowed().contains(authority),
        PolicyMode::BlockList => !storage.blocked().contains(authority),
    }
}

/// Apply the allow/block policy to the signing actor's authority.
pub fn policy_check(mode: PolicyMode, storage: &Storage, actor_id: &str) -> (r: Result<
    (),
    ErrorKind,
>)
    ensures
        r is Ok <==> spec_authority_of(actor_id@) is Some && spec_policy_ok(
            mode,
            *storage,
            authority_seq(actor_id@),
        ),
        spec_authority_of(actor_id@) is None ==> r == Err::<(), ErrorKind>(
            ErrorKind::MissingDomain,
        ),
        spec_authority_of(actor_id@) is Some && !spec_policy_ok(
            mode,
            *storage,
            authority_seq(actor_id@),
        ) ==> (r matches Err(ErrorKind::NotAllowed(a)) && a@ == actor_id@),
{
    let authority = match authority_of(actor_id) {
        Some(a) => a,
        None => {
            return Err(ErrorKind::MissingDomain);
        },
    };
    let ok = match mode {
        PolicyMode::AllowList => storage.is_allowed(authority.as_str()),
        PolicyMode::BlockList => !storage.is_blocked(authority.as_str()),
    };
    if ok {
        Ok(())
    } else {
        Err(ErrorKind::NotAllowed(actor_id.to_owned()))
    }
}

/// An activity may only speak for actors of the signer's own host.
pub fn check_actor_binding(signer_id: &str, activity_actor: &str) -> (r: Result<(), ErrorKind>)
    ensures
        r is Ok <==> spec_authority_of(signer_id@) is Some && spec_authority_of(signer_id@)
            == spec_authority_of(activity_actor@),
        r matches Err(e) ==> (e matches ErrorKind::BadActor(s, a) && s@ == signer_id@ && a@
            == activity_actor@),
{
    if crate::iri::same_authority(signer_id, activity_actor) {
        Ok(())
    } else {
        Err(ErrorKind::BadActor(signer_id.to_owned(), activity_actor.to_owned()))
    }
}

/// Where signature verification stands after one check of the signature
/// against a key.
#[derive(Clone, Copy, Debug, PartialEq, Eq, Structural)]
pub enum VerifyDecision {
    /// The signature verified.
    Accepted,
    /// The signature failed against a cached key: evict it and verify once
    /// more against a freshly fetched key — the key-rotation path.
    RetryWithRefetch,
    /// The signature failed against a current key.
    Rejected,
}

/// Judge one verification attempt: a failure against a cached key earns a
/// single retry with a forced refetch, a failure against a fresh key does
/// not.
pub fn judge_verification(key_was_cached: bool, sig_ok: bool, already_retried: bool) -> (r:
    VerifyDecision)
    ensures
        sig_ok ==> r == VerifyDecision::Accepted,
        !sig_ok && key_was_cached && !already_retried ==> r == VerifyDecision::RetryWithRefetch,
        !sig_ok && (!key_was_cached || already_retried) ==> r == VerifyDecision::Rejected,
{
    if sig_ok {
        VerifyDecision::Accepted
    } else if key_was_cached && !already_retried {
        VerifyDecision::RetryWithRefetch
    } else {
        VerifyDecision::Rejected
    }
}

/// What the transport layer extracted from the posted activity.
pub struct InboundActivity {
    /// The activity's `type`, case-sensitive.
    pub kind: String,
    /// The activity's own id.
    pub id: Option<String>,
    /// The actor the activity claims to come from.
    pub actor: String,
    /// The id of the activity's object, when the object carries one.
    pub object_id: Option<String>,
    /// The `type` of the activity's object, when the object carries one.
    pub object_kind: Option<String>,
    /// The activity exactly as it arrived on the wire.
    pub raw: String,
}

/// Validate and dispatch one inbound activity from `signer`, whose signature
/// has already been verified. Policy and actor binding run first; then the
/// activity's kind decides what is persisted and what work is enqueued. An
/// accepted activity answers 202 before any delivery runs.
///
/// `relay_actor` is the relay's own actor id; `accept_id` is a fresh id for
/// the Accept the relay answers a Follow with.
#[verifier::rlimit(100)]
pub fn handle_inbound(
    actors: &mut ActorCache,
    storage: &mut Storage,
    activity_cache: &mut ActivityCache,
    queue: &mut JobQueue,
    mode: PolicyMode,
    signer: &Actor,
    activity: &InboundActivity,
    relay_actor: &str,
    accept_id: String,
    now: u64,
) -> (r: Result<u16, ErrorKind>)
    requires
        old(actors).wf(),
        old(storage).wf(),
        old(queue).wf(),
        old(queue).next_id() < u64::MAX,
        signer.valid(),
    ensures
        final(actors).wf(),
        final(storage).wf(),
        final(queue).wf(),
        final(queue).next_id() <= old(queue).next_id() + 1,
        r matches Ok(status) ==> status == 202,
        // nothing is touched when policy or binding rejects the activity
        !(spec_authority_of(signer.id@) is Some && spec_policy_ok(
            mode,
            *old(storage),
            authority_seq(signer.id@),
        )) ==> {
            &&& (r matches Err(e) && (e matches ErrorKind::NotAllowed(_) || e
                matches ErrorKind::MissingDomain))
            &&& unchanged(*old(actors), *final(actors), *old(storage), *final(storage), *old(queue), *final(queue))
            &&& *final(activity_cache) == *old(activity_cache)
        },
        spec_policy_ok(mode, *old(storage), authority_seq(signer.id@)) && spec_authority_of(
            signer.id@,
        ) is Some && spec_authority_of(signer.id@) != spec_authority_of(activity.actor@) ==> {
            &&& (r matches Err(e) && e matches ErrorKind::BadActor(_, _))
            &&& unchanged(*old(actors), *final(actors), *old(storage), *final(storage), *old(queue), *final(queue))
            &&& *final(activity_cache) == *old(activity_cache)
        },
        admitted(mode, *old(storage), *signer, *activity) ==> {
            // Follow: the signer becomes a follower under its authority's
            // listener and one Accept delivery to its inbox is queued
            &&& activity.kind@ == "Follow"@ ==> {
                &&& r matches Ok(s) && s == 202
                &&& final(actors).following() == old(actors).following().insert(signer.id@)
                &&& final(storage).actors().contains_key(signer.id@)
                &&& final(storage).listeners().contains_key(authority_seq(signer.id@))
                &&& final(queue).jobs().len() == old(queue).jobs().len() + 1
                &&& (final(queue).jobs().last().kind matches JobKind::Deliver { inbox, activity: a }
                    && inbox@ == signer.inbox@ && (a matches OutboundActivity::Accept {
                    id,
                    actor,
                    follow_actor,
                    follow_object,
                } && id == accept_id && actor@ == relay_actor@ && follow_actor@ == signer.id@))
                &&& final(actors).followers_persisted(*final(storage))
                    || !old(actors).followers_persisted(*old(storage))
            }
            // Undo of a Follow: the follower and its row are gone
            &&& (activity.kind@ == "Undo"@ && spec_object_kind(*activity) == "Follow"@) ==> {
                &&& r matches Ok(s) && s == 202
                &&& !final(storage).actors().contains_key(activity.actor@)
                &&& !final(actors).following().contains(activity.actor@)
                &&& *final(queue) == *old(queue)
            }
            // Announce and Create deduplicate on the object id and enqueue
            // one Announce job for a fresh object
            &&& (activity.kind@ == "Announce"@ || activity.kind@ == "Create"@) ==> {
                &&& activity.object_id is None ==> r == Err::<u16, ErrorKind>(ErrorKind::MissingId)
                    && *final(queue) == *old(queue)
                &&& activity.object_id matches Some(oid) ==> {
                    &&& old(activity_cache).entries().contains_key(oid@) ==> r == Err::<
                        u16,
                        ErrorKind,
                    >(ErrorKind::Duplicate) && *final(queue) == *old(queue)
                    &&& !old(activity_cache).entries().contains_key(oid@) ==> {
                        &&& r matches Ok(s) && s == 202
                        &&& final(queue).jobs().len() == old(queue).jobs().len() + 1
                        &&& (final(queue).jobs().last().kind matches JobKind::Announce {
                            object_id,
                            origin_inbox,
                        } && object_id@ == oid@ && origin_inbox@ == signer.inbox@)
                    }
                }
            }
            // Delete forwards the raw activity to everyone but the origin,
            // and only for a subscribed signer
            &&& activity.kind@ == "Delete"@ ==> {
                &&& !old(actors).following().contains(signer.id@) ==> (r matches Err(
                    ErrorKind::NotSubscribed(a),
                ) && a@ == signer.id@ && *final(queue) == *old(queue))
                &&& old(actors).following().contains(signer.id@) ==> {
                    &&& r matches Ok(s) && s == 202
                    &&& final(queue).jobs().len() == old(queue).jobs().len() + 1
                    &&& (final(queue).jobs().last().kind matches JobKind::DeliverMany {
                        inboxes,
                        activity: a,
                    } && (a matches OutboundActivity::Raw { json } && json@ == activity.raw@)
                        && forall|i: int|
                        0 <= i < inboxes@.len() ==> inbox_ok(
                            *old(storage),
                            signer.inbox@,
                            #[trigger] inboxes@[i]@,
                        ))
                }
            }
            // Accept, Add and Remove are acknowledged and dropped
            &&& (activity.kind@ == "Accept"@ || activity.kind@ == "Add"@ || activity.kind@
                == "Remove"@) ==> (r matches Ok(s) && s == 202 && *final(queue) == *old(queue))
            // anything else is refused by kind
            &&& !known_kind(*activity) ==> (r matches Err(ErrorKind::Kind(k)) && k@
                == activity.kind@ && *final(queue) == *old(queue))
        },
{
    proof {
        reveal_strlit("Follow");
        reveal_strlit("Undo");
        reveal_strlit("Accept");
        reveal_strlit("Announce");
        reveal_strlit("Create");
        reveal_strlit("Delete");
        reveal_strlit("Add");
        reveal_strlit("Remove");
        // the kinds are pairwise distinct: the lengths differ, or the first
        // characters do
        assert("Follow"@.len() == 6 && "Follow"@[0] == 'F');
        assert("Undo"@.len() == 4);
        assert("Accept"@.len() == 6 && "Accept"@[0] == 'A');
        assert("Announce"@.len() == 8);
        assert("Create"@.len() == 6 && "Create"@[0] == 'C');
        assert("Delete"@.len() == 6 && "Delete"@[0] == 'D');
        assert("Add"@.len() == 3);
        assert("Remove"@.len() == 6 && "Remove"@[0] == 'R');
    }
    policy_check(mode, storage, signer.id.as_str())?;
    check_actor_binding(signer.id.as_str(), activity.actor.as_str())?;
    let follow = String::from_str("Follow");
    let undo = String::from_str("Undo");
    let accept = String::from_str("Accept");
    let announce = String::from_str("Announce");
    let create = String::from_str("Create");
    let delete = String::from_str("Delete");
    let add = String::from_str("Add");
    let remove = String::from_str("Remove");
    if activity.kind == follow {
        let authority = match authority_of(signer.id.as_str()) {
            Some(a) => a,
            None => {
                proof {
                    assert(false);
                }
                vstd::pervasive::unreached()
            },
        };
        storage.upsert_listener(authority.as_str(), signer.inbox.clone());
        match actors.follower(storage, signer, now) {
            Ok(()) => {},
            Err(_) => {
                proof {
                    assert(false);
                }
            },
        }
        queue.enqueue(
            JobKind::Deliver {
                inbox: signer.inbox.clone(),
                activity: OutboundActivity::Accept {
                    id: accept_id,
                    actor: relay_actor.to_owned(),
                    follow_actor: signer.id.clone(),
                    follow_object: match &activity.object_id {
                        Some(o) => o.clone(),
                        None => relay_actor.to_owned(),
                    },
                },
            },
            now,
        );
        Ok(202)
    } else if activity.kind == undo {
        let is_follow_undo = match &activity.object_kind {
            Some(k) => *k == follow,
            None => false,
        };
        if is_follow_undo {
            let undone = Actor {
                id: activity.actor.clone(),
                public_key: signer.public_key.clone(),
                public_key_id: signer.public_key_id.clone(),
                inbox: signer.inbox.clone(),
            };
            actors.unfollower(storage, &undone);
            Ok(202)
        } else {
            Err(ErrorKind::Kind(activity.kind.clone()))
        }
    } else if activity.kind == announce || activity.kind == create {
        let oid = match &activity.object_id {
            Some(o) => o,
            None => {
                return Err(ErrorKind::MissingId);
            },
        };
        if activity_cache.contains(oid.as_str()) {
            return Err(ErrorKind::Duplicate);
        }
        queue.enqueue(
            JobKind::Announce { object_id: oid.clone(), origin_inbox: signer.inbox.clone() },
            now,
        );
        Ok(202)
    } else if activity.kind == delete {
        if !actors.is_following(signer.id.as_str()) {
            return Err(ErrorKind::NotSubscribed(signer.id.clone()));
        }
        let inboxes = get_inboxes(storage, signer.inbox.as_str());
        queue.enqueue(
            JobKind::DeliverMany {
                inboxes,
                activity: OutboundActivity::Raw { json: activity.raw.clone() },
            },
            now,
        );
        Ok(202)
    } else if activity.kind == accept || activity.kind == add || activity.kind == remove {
        Ok(202)
    } else {
        Err(ErrorKind::Kind(activity.kind.clone()))
    }
}

/// The activity kinds the relay handles.
pub open spec fn known_kind(a: InboundActivity) -> bool {
    ||| a.kind@ == "Follow"@
    ||| (a.kind@ == "Undo"@ && spec_object_kind(a) == "Follow"@)
    ||| a.kind@ == "Accept"@
    ||| a.kind@ == "Announce"@
    ||| a.kind@ == "Create"@
    ||| a.kind@ == "Delete"@
    ||| a.kind@ == "Add"@
    ||| a.kind@ == "Remove"@
}

/// The object's kind, or nothing's view when absent.
pub open spec fn spec_object_kind(a: InboundActivity) -> Seq<char> {
    match a.object_kind {
        Some(k) => k@,
        None => Seq::empty(),
    }
}

/// Policy and actor binding both pass.
pub open spec fn admitted(
    mode: PolicyMode,
    storage: Storage,
    signer: Actor,
    activity: InboundActivity,
) -> bool {
    &&& spec_authority_of(signer.id@) is Some
    &&& spec_policy_ok(mode, storage, authority_seq(signer.id@))
    &&& spec_authority_of(signer.id@) == spec_authority_of(activity.actor@)
}

/// Nothing observable changed across a rejected activity.
pub open spec fn unchanged(
    actors0: ActorCache,
    actors1: ActorCache,
    storage0: Storage,
    storage1: Storage,
    queue0: JobQueue,
    queue1: JobQueue,
) -> bool {
    &&& actors1.following() == actors0.following()
    &&& storage1.actors() == storage0.actors()
    &&& storage1.listeners() == storage0.listeners()
    &&& queue1 == queue0
}

} // verus!
