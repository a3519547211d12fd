//! End-to-end scenarios over the follower registry, the inbound dispatch,
//! the job queue and the caches.
use relay::actor::{ActorCache, ActorPayload, MaybeCached};
use relay::deliver::{
    get_inboxes, handle_deliver_failure, perform_announce, perform_deliver_many,
    perform_unfollow, ActivityCache,
};
use relay::error::ErrorKind;
use relay::inbound::{handle_inbound, judge_verification, InboundActivity, PolicyMode, VerifyDecision};
use relay::jobs::{JobKind, JobQueue, OutboundActivity, Queue};
use relay::storage::{Actor, Storage};

fn actor(id: &str, inbox: &str) -> Actor {
    Actor {
        id: id.to_string(),
        public_key: "-----BEGIN PUBLIC KEY-----".to_string(),
        public_key_id: format!("{id}#main-key"),
        inbox: inbox.to_string(),
    }
}

fn follow_activity(actor_id: &str) -> InboundActivity {
    InboundActivity {
        kind: "Follow".to_string(),
        id: Some(format!("{actor_id}/follows/1")),
        actor: actor_id.to_string(),
        object_id: Some("https://relay.test/actor".to_string()),
        object_kind: None,
        raw: "{}".to_string(),
    }
}

/// A relay with one accepted follower on a.example.
fn relay_with_follower() -> (ActorCache, Storage, ActivityCache, JobQueue, Actor) {
    let mut actors = ActorCache::new();
    let mut storage = Storage::new();
    let activity_cache = ActivityCache::new();
    let mut queue = JobQueue::new();
    let signer = actor("https://a.example/u/1", "https://a.example/inbox");
    let r = handle_inbound(
        &mut actors,
        &mut storage,
        &mut ActivityCache::new(),
        &mut queue,
        PolicyMode::BlockList,
        &signer,
        &follow_activity("https://a.example/u/1"),
        "https://relay.test/actor",
        "https://relay.test/activity/accept-1".to_string(),
        1000,
    );
    assert_eq!(r, Ok(202));
    (actors, storage, activity_cache, queue, signer)
}

#[test]
fn follow_is_accepted_and_answered() {
    let (actors, mut storage, _, mut queue, signer) = relay_with_follower();
    assert!(actors.is_following("https://a.example/u/1"));
    assert!(storage.get_actor("https://a.example/u/1").is_some());
    // exactly one delivery was queued: the Accept back to the follower's inbox
    let id = queue.claim(Queue::Deliver, 1000, 30).expect("one deliver job");
    match queue.get_kind(id).expect("job exists") {
        JobKind::Deliver { inbox, activity } => {
            assert_eq!(inbox, "https://a.example/inbox");
            match activity {
                OutboundActivity::Accept {
                    actor,
                    follow_actor,
                    ..
                } => {
                    assert_eq!(actor, "https://relay.test/actor");
                    assert_eq!(follow_actor, &signer.id);
                }
                other => panic!("expected an Accept, got {:?}", kind_name(other)),
            }
        }
        _ => panic!("expected a Deliver job"),
    }
    assert!(queue.claim(Queue::Deliver, 1000, 30).is_none());
    // the follower's authority has a listener
    assert_eq!(
        storage.listener_inbox("a.example"),
        Some("https://a.example/inbox".to_string())
    );
}

fn kind_name(a: &OutboundActivity) -> &'static str {
    match a {
        OutboundActivity::Accept { .. } => "Accept",
        OutboundActivity::Announce { .. } => "Announce",
        OutboundActivity::Raw { .. } => "Raw",
    }
}

#[test]
fn allow_list_rejects_unlisted_authority() {
    let mut actors = ActorCache::new();
    let mut storage = Storage::new();
    let mut cache = ActivityCache::new();
    let mut queue = JobQueue::new();
    let signer = actor("https://b.example/u/1", "https://b.example/inbox");
    let r = handle_inbound(
        &mut actors,
        &mut storage,
        &mut cache,
        &mut queue,
        PolicyMode::AllowList,
        &signer,
        &follow_activity("https://b.example/u/1"),
        "https://relay.test/actor",
        "https://relay.test/activity/accept-1".to_string(),
        1000,
    );
    let e = r.expect_err("not on the allow list");
    assert_eq!(e.status_code(), 403);
    assert_eq!(
        e.message(),
        "Actor is not allowed, https://b.example/u/1"
    );
    // nothing was persisted
    assert!(!actors.is_following("https://b.example/u/1"));
    assert!(storage.get_actor("https://b.example/u/1").is_none());
    assert!(queue.claim(Queue::Deliver, 1000, 30).is_none());
    assert!(queue.claim(Queue::Apub, 1000, 30).is_none());

    // once allowed, the same follow goes through
    storage.allow("b.example");
    let r2 = handle_inbound(
        &mut actors,
        &mut storage,
        &mut cache,
        &mut queue,
        PolicyMode::AllowList,
        &signer,
        &follow_activity("https://b.example/u/1"),
        "https://relay.test/actor",
        "https://relay.test/activity/accept-2".to_string(),
        1001,
    );
    assert_eq!(r2, Ok(202));
    assert!(actors.is_following("https://b.example/u/1"));
}

#[test]
fn foreign_actor_payload_is_rejected() {
    let (mut actors, mut storage, mut cache, mut queue, signer) = relay_with_follower();
    let mut activity = follow_activity("https://a.example/u/1");
    activity.actor = "https://evil.example/u/1".to_string();
    let r = handle_inbound(
        &mut actors,
        &mut storage,
        &mut cache,
        &mut queue,
        PolicyMode::BlockList,
        &signer,
        &activity,
        "https://relay.test/actor",
        "https://relay.test/activity/accept-9".to_string(),
        1002,
    );
    let e = r.expect_err("foreign actor");
    assert!(matches!(e, ErrorKind::BadActor(_, _)));
    assert_eq!(e.status_code(), 403);
}

#[test]
fn duplicate_announce_is_deduplicated() {
    let (mut actors, mut storage, mut cache, mut queue, signer) = relay_with_follower();
    let mut create = follow_activity("https://a.example/u/1");
    create.kind = "Create".to_string();
    create.object_id = Some("https://a.example/n/42".to_string());
    let r1 = handle_inbound(
        &mut actors,
        &mut storage,
        &mut cache,
        &mut queue,
        PolicyMode::BlockList,
        &signer,
        &create,
        "https://relay.test/actor",
        "https://relay.test/activity/accept-2".to_string(),
        1003,
    );
    assert_eq!(r1, Ok(202));
    // clear the Accept delivery left over from the follow
    let accept_job = queue.claim(Queue::Deliver, 1003, 30).expect("accept queued");
    queue.complete(accept_job);
    // the announce job runs: it enqueues one fan-out and records the object
    let announce_id = queue.claim(Queue::Apub, 1003, 30).expect("announce queued");
    let (object_id, origin_inbox) = match queue.get_kind(announce_id).unwrap() {
        JobKind::Announce {
            object_id,
            origin_inbox,
        } => (object_id.clone(), origin_inbox.clone()),
        _ => panic!("expected an Announce job"),
    };
    assert_eq!(object_id, "https://a.example/n/42");
    let announced = perform_announce(
        &storage,
        &mut cache,
        &mut queue,
        &object_id,
        &origin_inbox,
        "https://relay.test/activity/77".to_string(),
        "https://relay.test/actor".to_string(),
        "https://relay.test/followers".to_string(),
        1004,
    );
    assert!(announced);
    queue.complete(announce_id);
    // rerunning the same announce produces no second fan-out
    assert!(!perform_announce(
        &storage,
        &mut cache,
        &mut queue,
        &object_id,
        &origin_inbox,
        "https://relay.test/activity/78".to_string(),
        "https://relay.test/actor".to_string(),
        "https://relay.test/followers".to_string(),
        1005,
    ));
    // the fan-out excludes the origin inbox: the only follower is the
    // origin itself, so no deliveries come out of it
    let many_id = queue.claim(Queue::Deliver, 1005, 30).expect("fan-out job");
    match queue.get_kind(many_id).unwrap() {
        JobKind::DeliverMany { inboxes, .. } => assert!(inboxes.is_empty()),
        _ => panic!("expected a DeliverMany job"),
    }
    // a second identical Create is answered as a duplicate, enqueuing nothing
    let r2 = handle_inbound(
        &mut actors,
        &mut storage,
        &mut cache,
        &mut queue,
        PolicyMode::BlockList,
        &signer,
        &create,
        "https://relay.test/actor",
        "https://relay.test/activity/accept-3".to_string(),
        1006,
    );
    let e = r2.expect_err("second create is a duplicate");
    assert!(matches!(e, ErrorKind::Duplicate));
    assert_eq!(e.status_code(), 202);
    assert!(queue.claim(Queue::Apub, 1006, 30).is_none());
}

#[test]
fn announce_fans_out_to_other_listeners() {
    let (mut actors, mut storage, mut cache, mut queue, _signer) = relay_with_follower();
    // a second follower on another authority
    let other = actor("https://c.example/u/9", "https://c.example/inbox");
    let r = handle_inbound(
        &mut actors,
        &mut storage,
        &mut cache,
        &mut queue,
        PolicyMode::BlockList,
        &other,
        &follow_activity("https://c.example/u/9"),
        "https://relay.test/actor",
        "https://relay.test/activity/accept-4".to_string(),
        1010,
    );
    assert_eq!(r, Ok(202));
    let inboxes = get_inboxes(&storage, "https://a.example/inbox");
    assert_eq!(inboxes, vec!["https://c.example/inbox".to_string()]);
    // blocked authorities are excluded from the fan-out
    storage.block("c.example");
    assert!(get_inboxes(&storage, "https://a.example/inbox").is_empty());
    storage.unblock("c.example");
    // the fan-out becomes one Deliver job per inbox, carrying the activity
    let mut dq = JobQueue::new();
    perform_deliver_many(
        &mut dq,
        &inboxes,
        &OutboundActivity::Raw {
            json: "{\"type\":\"Delete\"}".to_string(),
        },
        1011,
    );
    let id = dq.claim(Queue::Deliver, 1011, 30).expect("one deliver");
    match dq.get_kind(id).unwrap() {
        JobKind::Deliver { inbox, activity } => {
            assert_eq!(inbox, "https://c.example/inbox");
            match activity {
                OutboundActivity::Raw { json } => assert_eq!(json, "{\"type\":\"Delete\"}"),
                _ => panic!("expected the raw payload"),
            }
        }
        _ => panic!("expected a Deliver job"),
    }
}

#[test]
fn tombstoned_inbox_undoes_the_follow() {
    let (mut actors, mut storage, _, mut queue, _signer) = relay_with_follower();
    let gone = ErrorKind::Status("a.example".to_string(), 410);
    assert!(gone.is_gone());
    let unfollowed = handle_deliver_failure(
        &storage,
        &mut queue,
        "https://a.example/inbox",
        &gone,
        2000,
    );
    assert!(unfollowed);
    let id = queue.claim(Queue::Apub, 2000, 30).expect("unfollow job");
    let actor_id = match queue.get_kind(id).unwrap() {
        JobKind::Unfollow { actor_id } => actor_id.clone(),
        _ => panic!("expected an Unfollow job"),
    };
    assert_eq!(actor_id, "https://a.example/u/1");
    perform_unfollow(&mut actors, &mut storage, &actor_id);
    assert!(!actors.is_following("https://a.example/u/1"));
    assert!(storage.get_actor("https://a.example/u/1").is_none());
    // the listener died with its last actor
    assert_eq!(storage.listener_inbox("a.example"), None);
    // a plain 500 never unfollows
    assert!(!handle_deliver_failure(
        &storage,
        &mut queue,
        "https://a.example/inbox",
        &ErrorKind::Status("a.example".to_string(), 500),
        2001,
    ));
}

#[test]
fn unfollow_keeps_listener_while_siblings_remain() {
    let (mut actors, mut storage, mut cache, mut queue, first) = relay_with_follower();
    let second = actor("https://a.example/u/2", "https://a.example/inbox");
    let r = handle_inbound(
        &mut actors,
        &mut storage,
        &mut cache,
        &mut queue,
        PolicyMode::BlockList,
        &second,
        &follow_activity("https://a.example/u/2"),
        "https://relay.test/actor",
        "https://relay.test/activity/accept-5".to_string(),
        1020,
    );
    assert_eq!(r, Ok(202));
    // dropping the first leaves the listener for the sibling
    let cascade = actors.unfollower(&mut storage, &first);
    assert!(cascade.is_none());
    assert!(storage.listener_inbox("a.example").is_some());
    assert!(storage.get_actor("https://a.example/u/1").is_none());
    // dropping the last cascades into the listener
    let cascade2 = actors.unfollower(&mut storage, &second);
    assert!(cascade2.is_some());
    assert_eq!(storage.listener_inbox("a.example"), None);
}

#[test]
fn undo_follow_removes_the_follower() {
    let (mut actors, mut storage, mut cache, mut queue, signer) = relay_with_follower();
    let undo = InboundActivity {
        kind: "Undo".to_string(),
        id: Some("https://a.example/activities/9".to_string()),
        actor: signer.id.clone(),
        object_id: Some("https://a.example/follows/1".to_string()),
        object_kind: Some("Follow".to_string()),
        raw: "{}".to_string(),
    };
    let r = handle_inbound(
        &mut actors,
        &mut storage,
        &mut cache,
        &mut queue,
        PolicyMode::BlockList,
        &signer,
        &undo,
        "https://relay.test/actor",
        "https://relay.test/activity/accept-6".to_string(),
        1030,
    );
    assert_eq!(r, Ok(202));
    assert!(!actors.is_following(&signer.id));
    assert!(storage.get_actor(&signer.id).is_none());
}

#[test]
fn unknown_kinds_are_refused() {
    let (mut actors, mut storage, mut cache, mut queue, signer) = relay_with_follower();
    let mut like = follow_activity("https://a.example/u/1");
    like.kind = "Like".to_string();
    let r = handle_inbound(
        &mut actors,
        &mut storage,
        &mut cache,
        &mut queue,
        PolicyMode::BlockList,
        &signer,
        &like,
        "https://relay.test/actor",
        "https://relay.test/activity/accept-7".to_string(),
        1040,
    );
    let e = r.expect_err("Like is not handled");
    assert!(matches!(e, ErrorKind::Kind(_)));
    assert_eq!(e.status_code(), 400);
    assert_eq!(e.message(), "Wrong ActivityPub kind, Like");
}

#[test]
fn delete_forwards_only_for_subscribed_actors() {
    let (mut actors, mut storage, mut cache, mut queue, signer) = relay_with_follower();
    let delete = InboundActivity {
        kind: "Delete".to_string(),
        id: Some("https://a.example/activities/10".to_string()),
        actor: signer.id.clone(),
        object_id: Some("https://a.example/u/1".to_string()),
        object_kind: None,
        raw: "{\"type\":\"Delete\",\"id\":\"x\"}".to_string(),
    };
    // clear the Accept delivery left over from the follow
    let accept_job = queue.claim(Queue::Deliver, 1049, 30).expect("accept queued");
    queue.complete(accept_job);
    let r = handle_inbound(
        &mut actors,
        &mut storage,
        &mut cache,
        &mut queue,
        PolicyMode::BlockList,
        &signer,
        &delete,
        "https://relay.test/actor",
        "https://relay.test/activity/accept-8".to_string(),
        1050,
    );
    assert_eq!(r, Ok(202));
    // the forwarded payload is byte-identical to what arrived
    let id = queue.claim(Queue::Deliver, 1050, 30).expect("fan-out queued");
    match queue.get_kind(id).unwrap() {
        JobKind::DeliverMany { activity, .. } => match activity {
            OutboundActivity::Raw { json } => {
                assert_eq!(json, "{\"type\":\"Delete\",\"id\":\"x\"}")
            }
            _ => panic!("expected the raw payload"),
        },
        _ => panic!("expected a DeliverMany job"),
    }
    // an unsubscribed stranger cannot make the relay forward
    let stranger = actor("https://s.example/u/1", "https://s.example/inbox");
    let mut foreign = delete;
    foreign.actor = stranger.id.clone();
    let r2 = handle_inbound(
        &mut actors,
        &mut storage,
        &mut cache,
        &mut queue,
        PolicyMode::BlockList,
        &stranger,
        &foreign,
        "https://relay.test/actor",
        "https://relay.test/activity/accept-9".to_string(),
        1051,
    );
    let e = r2.expect_err("stranger may not forward");
    assert!(matches!(e, ErrorKind::NotSubscribed(_)));
    assert_eq!(e.status_code(), 401);
}

#[test]
fn key_rotation_retries_once_against_cached_keys() {
    assert_eq!(
        judge_verification(true, false, false),
        VerifyDecision::RetryWithRefetch
    );
    assert_eq!(judge_verification(true, true, false), VerifyDecision::Accepted);
    assert_eq!(judge_verification(false, false, false), VerifyDecision::Rejected);
    assert_eq!(judge_verification(true, false, true), VerifyDecision::Rejected);
}

#[test]
fn rotated_key_is_refetched_and_persisted() {
    let (mut actors, mut storage, _, _, signer) = relay_with_follower();
    // the cached key fails to verify; the entry is evicted and the document
    // refetched, whose new key lands in cache and storage
    let decision = judge_verification(true, false, false);
    assert_eq!(decision, VerifyDecision::RetryWithRefetch);
    actors.evict(&signer.id);
    let payload = ActorPayload {
        id: signer.id.clone(),
        public_key_pem: "-----BEGIN PUBLIC KEY----- rotated".to_string(),
        public_key_id: format!("{}#main-key", signer.id),
        key_owner: signer.id.clone(),
        inbox: "https://a.example/u/1/inbox".to_string(),
        shared_inbox: Some("https://a.example/inbox".to_string()),
    };
    let fetched = actors
        .get_no_cache(&mut storage, &signer.id, &payload, 5000)
        .expect("valid payload");
    assert_eq!(fetched.public_key, "-----BEGIN PUBLIC KEY----- rotated");
    // the shared inbox is preferred
    assert_eq!(fetched.inbox, "https://a.example/inbox");
    let row = storage.get_actor(&signer.id).expect("row kept");
    assert_eq!(row.public_key, "-----BEGIN PUBLIC KEY----- rotated");
}

#[test]
fn fetched_payloads_are_validated() {
    let mut actors = ActorCache::new();
    let mut storage = Storage::new();
    let good = ActorPayload {
        id: "https://a.example/u/1".to_string(),
        public_key_pem: "pem".to_string(),
        public_key_id: "https://a.example/u/1#main-key".to_string(),
        key_owner: "https://a.example/u/1".to_string(),
        inbox: "https://a.example/u/1/inbox".to_string(),
        shared_inbox: None,
    };
    // a key id on a foreign host breaks the host check
    let mut foreign_key = ActorPayload {
        public_key_id: "https://evil.example/u/1#main-key".to_string(),
        ..clone_payload(&good)
    };
    let e = actors
        .get_no_cache(&mut storage, "https://a.example/u/1", &foreign_key, 100)
        .expect_err("foreign key id");
    assert!(matches!(e, ErrorKind::HostMismatch));
    // a payload declaring a foreign id is refused
    foreign_key = ActorPayload {
        id: "https://evil.example/u/1".to_string(),
        ..clone_payload(&good)
    };
    let e2 = actors
        .get_no_cache(&mut storage, "https://a.example/u/1", &foreign_key, 100)
        .expect_err("foreign declared id");
    assert!(matches!(e2, ErrorKind::HostMismatch));
    // a key owned by someone else is refused
    foreign_key = ActorPayload {
        key_owner: "https://a.example/u/2".to_string(),
        ..clone_payload(&good)
    };
    let e3 = actors
        .get_no_cache(&mut storage, "https://a.example/u/1", &foreign_key, 100)
        .expect_err("foreign key owner");
    assert!(matches!(e3, ErrorKind::BadActor(_, _)));
    // the good payload is accepted, with the plain inbox as fallback
    let a = actors
        .get_no_cache(&mut storage, "https://a.example/u/1", &good, 100)
        .expect("valid");
    assert_eq!(a.inbox, "https://a.example/u/1/inbox");
}

fn clone_payload(p: &ActorPayload) -> ActorPayload {
    ActorPayload {
        id: p.id.clone(),
        public_key_pem: p.public_key_pem.clone(),
        public_key_id: p.public_key_id.clone(),
        key_owner: p.key_owner.clone(),
        inbox: p.inbox.clone(),
        shared_inbox: p.shared_inbox.clone(),
    }
}

#[test]
fn local_lookup_layers() {
    let (mut actors, mut storage, _, _, signer) = relay_with_follower();
    // the row was written at t=1000 and is withheld while fresh
    assert!(actors.get(&storage, &signer.id, 1100).is_none());
    // once stale, it is served and cached
    let hit = actors
        .get(&storage, &signer.id, 1200)
        .expect("row is old enough");
    assert!(hit.is_cached());
    assert_eq!(hit.into_inner().id, signer.id);
    // an unknown actor is a miss at every layer
    assert!(actors.get(&storage, "https://z.example/u/9", 1200).is_none());
}

#[test]
fn rehydrate_rebuilds_the_follower_set() {
    let (mut actors, storage, _, _, signer) = relay_with_follower();
    actors.bust_follower(&signer.id);
    assert!(!actors.is_following(&signer.id));
    // the ten-minute repair path restores the set from storage
    actors.rehydrate(&storage);
    assert!(actors.is_following(&signer.id));
    assert!(!actors.is_following("https://z.example/u/9"));
}

#[test]
fn job_lease_makes_work_at_least_once() {
    let mut queue = JobQueue::new();
    queue.enqueue(
        JobKind::QueryInstance {
            actor_id: "https://a.example/u/1".to_string(),
        },
        100,
    );
    let id = queue.claim(Queue::Apub, 100, 30).expect("claimable");
    // the lease hides the job from other workers
    assert!(queue.claim(Queue::Apub, 101, 30).is_none());
    // a crashed worker's lease expires and the job is claimable again
    let again = queue.claim(Queue::Apub, 131, 30).expect("lease expired");
    assert_eq!(again, id);
    queue.complete(id);
    assert!(queue.claim(Queue::Apub, 200, 30).is_none());
}

#[test]
fn failed_jobs_back_off_then_dead_letter() {
    let mut queue = JobQueue::new();
    let id = queue.enqueue(
        JobKind::Deliver {
            inbox: "https://a.example/inbox".to_string(),
            activity: OutboundActivity::Raw {
                json: "{}".to_string(),
            },
        },
        0,
    );
    assert_eq!(queue.claim(Queue::Deliver, 0, 30), Some(id));
    queue.fail(id, &ErrorKind::Status("a.example".to_string(), 500), 0);
    // rescheduled ten seconds out, not claimable before that
    assert!(queue.claim(Queue::Deliver, 9, 30).is_none());
    assert_eq!(queue.claim(Queue::Deliver, 10, 30), Some(id));
    // a dropped classification dead-letters immediately
    queue.fail(id, &ErrorKind::Status("a.example".to_string(), 404), 10);
    assert!(queue.claim(Queue::Deliver, 1000, 30).is_none());
}
