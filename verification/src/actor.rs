//! The actor cache and follower registry: a TTL map over the persisted
//! actor rows, and the synchronously queried set of actors whose Follow the
//! relay has accepted. Storage stays authoritative; the follower set is
//! rebuilt from it by `rehydrate`, and every mutation here keeps the set a
//! subset of the persisted rows.
use vstd::prelude::*;
use vstd::hash_set::StringHashSet;

use crate::error::ErrorKind;
use crate::iri::{authority_seq, spec_authority_of, same_authority, authority_of};
use crate::storage::{Actor, ActorRow, Storage};

verus! {

/// Entries the actor TTL cache can hold before evicting the oldest.
pub const ACTOR_CACHE_SIZE: usize = 8192;

/// Seconds a cached actor is served before a refetch.
pub const REFETCH_SECONDS: u64 = 1800;

/// What the TTL cache currently holds: every pair that was inserted and has
/// neither been removed nor evicted for capacity. An expired pair may still
/// be present; lookups simply stop returning it.
pub uninterp spec fn ttl_entries(c: ttl_cache::TtlCache<String, Actor>) -> Map<Seq<char>, Actor>;

/// The capacity the TTL cache was created with.
pub uninterp spec fn ttl_capacity(c: ttl_cache::TtlCache<String, Actor>) -> nat;

#[verifier::external_type_specification]
#[verifier::external_body]
#[verifier::reject_recursive_types(K)]
#[verifier::reject_recursive_types(V)]
#[verifier::reject_recursive_types(S)]
pub struct ExTtlCache<K: core::cmp::Eq + core::hash::Hash, V, S: core::hash::BuildHasher>(
    ttl_cache::TtlCache<K, V, S>,
);

/// Relies on ttl_cache::TtlCache::new: a fresh cache holding nothing, with
/// the given capacity.
#[verifier::external_body]
fn cache_new(capacity: usize) -> (r: ttl_cache::TtlCache<String, Actor>)
    requires
        capacity >= 1,
    ensures
        ttl_capacity(r) == capacity,
        forall|x: Seq<char>| !ttl_entries(r).contains_key(x),
{
    ttl_cache::TtlCache::new(capacity)
}

/// Relies on ttl_cache::TtlCache::insert: the pair is added; when the cache
/// grows past its capacity the oldest entry is evicted, so the new pair
/// survives, every surviving pair was there before, and no other value
/// changes. The lifetime is bounded because the expiry instant is computed
/// by adding to the clock, which does not take arbitrary durations.
#[verifier::external_body]
fn cache_insert(c: &mut ttl_cache::TtlCache<String, Actor>, k: String, v: Actor, ttl_seconds: u64)
    requires
        ttl_capacity(*old(c)) >= 1,
        ttl_seconds <= REFETCH_SECONDS,
    ensures
        ttl_capacity(*final(c)) == ttl_capacity(*old(c)),
        ttl_entries(*final(c)).contains_pair(k@, v),
        forall|x: Seq<char>| #[trigger]
            ttl_entries(*final(c)).contains_key(x) ==> x == k@ || ttl_entries(
                *old(c),
            ).contains_key(x),
        forall|x: Seq<char>|
            x != k@ && #[trigger] ttl_entries(*final(c)).contains_key(x) ==> ttl_entries(
                *final(c),
            )[x] == ttl_entries(*old(c))[x],
{
    c.insert(k, v, std::time::Duration::from_secs(ttl_seconds));
}

/// Relies on ttl_cache::TtlCache::get: a hit returns a pair the cache holds
/// for that key; an expired or missing key returns nothing.
#[verifier::external_body]
fn cache_get(c: &ttl_cache::TtlCache<String, Actor>, k: &str) -> (r: Option<Actor>)
    ensures
        r matches Some(v) ==> ttl_entries(*c).contains_pair(k@, v),
{
    c.get(k).cloned()
}

/// Relies on ttl_cache::TtlCache::remove: the key is gone afterwards and
/// nothing else changes.
#[verifier::external_body]
fn cache_remove(c: &mut ttl_cache::TtlCache<String, Actor>, k: &str)
    ensures
        ttl_capacity(*final(c)) == ttl_capacity(*old(c)),
        ttl_entries(*final(c)) == ttl_entries(*old(c)).remove(k@),
{
    c.remove(k);
}

/// Whether a looked-up actor came out of a cache layer or from a fresh
/// network fetch — a signature mismatch is retried once only against a
/// cached key, since a fetched key is already current.
#[derive(Debug)]
pub enum MaybeCached<T> {
    /// Served from the TTL cache or the persisted rows.
    Cached(T),
    /// Just fetched over the network and validated.
    Fetched(T),
}

impl<T> MaybeCached<T> {
    /// The carried value, wherever it came from.
    pub open spec fn spec_inner(self) -> T {
        match self {
            MaybeCached::Cached(t) => t,
            MaybeCached::Fetched(t) => t,
        }
    }

    pub fn is_cached(&self) -> (r: bool)
        ensures
            r == (self matches MaybeCached::Cached(_)),
    {
        match self {
            MaybeCached::Cached(_) => true,
            _ => false,
        }
    }

    pub fn into_inner(self) -> (r: T)
        ensures
            r == self.spec_inner(),
    {
        match self {
            MaybeCached::Cached(t) | MaybeCached::Fetched(t) => t,
        }
    }
}

/// What a network fetch of an actor document yields, already reduced to
/// plain fields by the transport layer.
pub struct ActorPayload {
    /// The id the document declares for itself.
    pub id: String,
    /// ASCII PEM of the declared public key.
    pub public_key_pem: String,
    /// The id of the declared public key.
    pub public_key_id: String,
    /// The actor the declared key claims to belong to.
    pub key_owner: String,
    /// The actor's own inbox.
    pub inbox: String,
    /// The server-wide shared inbox, when one is offered.
    pub shared_inbox: Option<String>,
}

impl ActorPayload {
    /// The inbox deliveries should use: the shared inbox when offered.
    pub open spec fn spec_chosen_inbox(self) -> Seq<char> {
        match self.shared_inbox {
            Some(s) => s@,
            None => self.inbox@,
        }
    }
}

/// The in-memory layers over the persisted actors.
pub struct ActorCache {
    cache: ttl_cache::TtlCache<String, Actor>,
    following: StringHashSet,
}

impl ActorCache {
    /// The TTL layer's contents.
    pub closed spec fn cached(self) -> Map<Seq<char>, Actor> {
        ttl_entries(self.cache)
    }

    /// The follower set: ids of actors whose Follow was accepted.
    pub closed spec fn following(self) -> Set<Seq<char>> {
        self.following@
    }

    /// The TTL layer can hold at least one entry.
    pub closed spec fn capacity_ok(self) -> bool {
        ttl_capacity(self.cache) >= 1
    }

    /// Every cached actor is valid and lives under the authority it is
    /// cached for.
    pub open spec fn wf(self) -> bool {
        &&& self.capacity_ok()
        &&& forall|k: Seq<char>| #[trigger]
            self.cached().contains_key(k) ==> self.cached()[k].valid() && authority_seq(
                self.cached()[k].id@,
            ) == authority_seq(k)
    }

    /// Every follower has a persisted actor row.
    pub open spec fn followers_persisted(self, storage: Storage) -> bool {
        forall|f: Seq<char>| #[trigger]
            self.following().contains(f) ==> storage.actors().contains_key(f)
    }

    /// A change that leaves the TTL layer alone keeps the cache well formed.
    proof fn lemma_wf_same_cache(pre: ActorCache, post: ActorCache)
        requires
            pre.wf(),
            post.cached() == pre.cached(),
            post.capacity_ok(),
        ensures
            post.wf(),
    {
        assert forall|k: Seq<char>| #[trigger] post.cached().contains_key(k) implies post.cached()[
            k
        ].valid() && authority_seq(post.cached()[k].id@) == authority_seq(k) by {
            assert(pre.cached().contains_key(k));
        }
    }

    /// An empty cache, following nobody.
    pub fn new() -> (r: Self)
        ensures
            r.wf(),
            r.cached() == Map::<Seq<char>, Actor>::empty(),
            r.following() == Set::<Seq<char>>::empty(),
    {
        ActorCache { cache: cache_new(ACTOR_CACHE_SIZE), following: StringHashSet::new() }
    }

    /// Whether the relay currently re-broadcasts to `id`.
    pub fn is_following(&self, id: &str) -> (r: bool)
        ensures
            r == self.following().contains(id@),
    {
        self.following.contains(id)
    }

    /// Add `id` to the follower set alone; the caller has already persisted
    /// the row, which keeps the set a subset of the rows.
    pub fn cache_follower(&mut self, id: String, storage: &Storage)
        requires
            old(self).wf(),
            storage.actors().contains_key(id@),
        ensures
            final(self).wf(),
            final(self).following() == old(self).following().insert(id@),
            final(self).cached() == old(self).cached(),
            old(self).followers_persisted(*storage) ==> final(self).followers_persisted(*storage),
    {
        let ghost gid = id@;
        self.following.insert(id);
        proof {
            Self::lemma_wf_same_cache(*old(self), *self);
            if old(self).followers_persisted(*storage) {
                assert forall|f: Seq<char>| #[trigger]
                    self.following().contains(f) implies storage.actors().contains_key(f) by {
                    if f != gid {
                        assert(old(self).following().contains(f));
                    }
                }
            }
        }
    }

    /// Drop `id` from the follower set alone.
    pub fn bust_follower(&mut self, id: &str)
        requires
            old(self).wf(),
        ensures
            final(self).wf(),
            final(self).following() == old(self).following().remove(id@),
            final(self).cached() == old(self).cached(),
    {
        self.following.remove(id);
        proof {
            Self::lemma_wf_same_cache(*old(self), *self);
        }
    }

    /// Accept a follow: persist the actor under its authority's listener and
    /// add it to the follower set. Fails as the store does — on an id
    /// without authority, a key bound to a foreign authority, or an
    /// authority nobody listens for — and then changes nothing.
    pub fn follower(&mut self, storage: &mut Storage, actor: &Actor, now: u64) -> (r: Result<
        (),
        ErrorKind,
    >)
        requires
            old(self).wf(),
            old(storage).wf(),
        ensures
            final(self).wf(),
            final(storage).wf(),
            final(self).cached() == old(self).cached(),
            final(storage).listeners() == old(storage).listeners(),
            r is Ok <==> actor.valid() && old(storage).listeners().contains_key(
                actor.authority(),
            ),
            r is Ok ==> {
                &&& final(storage).actors() == old(storage).actors().insert(
                    actor.id@,
                    ActorRow {
                        actor: *actor,
                        listener_id: old(storage).listeners()[actor.authority()].id,
                        updated_at: now,
                    },
                )
                &&& final(self).following() == old(self).following().insert(actor.id@)
            },
            r is Err ==> final(storage).actors() == old(storage).actors()
                && final(self).following() == old(self).following(),
            old(self).followers_persisted(*old(storage)) ==> final(self).followers_persisted(
                *final(storage),
            ),
    {
        let r = storage.upsert_actor(actor.duplicate(), now);
        match r {
            Ok(()) => {
                self.following.insert(actor.id.clone());
                proof {
                    Self::lemma_wf_same_cache(*old(self), *self);
                    if old(self).followers_persisted(*old(storage)) {
                        assert forall|f: Seq<char>| #[trigger]
                            self.following().contains(f) implies storage.actors().contains_key(
                            f,
                        ) by {
                            if f != actor.id@ {
                                assert(old(self).following().contains(f));
                                assert(old(storage).actors().contains_key(f));
                            }
                        }
                    }
                }
                Ok(())
            },
            Err(e) => {
                proof {
                    Self::lemma_wf_same_cache(*old(self), *self);
                }
                Err(e)
            },
        }
    }

    /// Undo a follow: drop the follower, delete the persisted row, and say
    /// which listener died with it, if any. Afterwards no row for the actor
    /// remains, and its authority's listener remains exactly when a sibling
    /// actor still needs it.
    pub fn unfollower(&mut self, storage: &mut Storage, actor: &Actor) -> (r: Option<String>)
        requires
            old(self).wf(),
            old(storage).wf(),
        ensures
            final(self).wf(),
            final(storage).wf(),
            final(self).cached() == old(self).cached(),
            final(self).following() == old(self).following().remove(actor.id@),
            final(storage).actors() == old(storage).actors().remove(actor.id@),
            !final(storage).actors().contains_key(actor.id@),
            final(storage).listeners().contains_key(authority_seq(actor.id@)) <==> old(
                storage,
            ).listeners().contains_key(authority_seq(actor.id@)) && (old(storage).has_sibling(
                actor.id@,
            ) || !old(storage).actors().contains_key(actor.id@)),
            old(storage).actors().contains_key(actor.id@) && !old(storage).has_sibling(actor.id@)
                ==> (r matches Some(lid) && lid@ == old(storage).actors()[actor.id@].listener_id@),
            old(storage).actors().contains_key(actor.id@) && old(storage).has_sibling(actor.id@)
                ==> r is None,
            !old(storage).actors().contains_key(actor.id@) ==> r is None,
            old(self).followers_persisted(*old(storage)) ==> final(self).followers_persisted(
                *final(storage),
            ),
    {
        self.following.remove(actor.id.as_str());
        let r = storage.delete_actor(actor.id.as_str());
        proof {
            Self::lemma_wf_same_cache(*old(self), *self);
            if old(self).followers_persisted(*old(storage)) {
                assert forall|f: Seq<char>| #[trigger]
                    self.following().contains(f) implies storage.actors().contains_key(f) by {
                    assert(f != actor.id@);
                    assert(old(self).following().contains(f));
                    assert(old(storage).actors().contains_key(f));
                }
            }
        }
        r
    }

    /// Look `id` up in the local layers: the TTL cache first, then the
    /// persisted rows (whose fresh rows are withheld — they were written
    /// moments ago by this process). A hit either came straight out of the
    /// TTL cache, which is then left untouched, or out of storage, whose row
    /// is then planted in the TTL cache; either way the returned actor is
    /// cached afterwards. Whether a present TTL entry answers depends on its
    /// expiry, which only the cache's clock sees. A miss means the caller
    /// must fetch the document over the network and hand it to
    /// `get_no_cache`.
    pub fn get(&mut self, storage: &Storage, id: &str, now: u64) -> (r: Option<MaybeCached<Actor>>)
        requires
            old(self).wf(),
            storage.wf(),
        ensures
            final(self).wf(),
            final(self).following() == old(self).following(),
            r matches Some(mc) ==> mc is Cached,
            r matches Some(mc) ==> {
                let a = mc.spec_inner();
                &&& a.valid()
                &&& authority_seq(a.id@) == authority_seq(id@)
                &&& final(self).cached().contains_pair(id@, a)
                &&& ((old(self).cached().contains_pair(id@, a) && *final(self) == *old(self)) || (
                storage.actors().contains_key(id@) && a == storage.actors()[id@].actor
                    && storage.actors()[id@].updated_at + 120 < now))
            },
            r is None ==> storage.actors().contains_key(id@) ==> storage.actors()[id@].updated_at
                + 120 >= now,
            r is None ==> *final(self) == *old(self),
    {
        match cache_get(&self.cache, id) {
            Some(actor) => {
                proof {
                    assert(old(self).cached().contains_key(id@));
                    assert(old(self).cached()[id@] == actor);
                }
                Some(MaybeCached::Cached(actor))
            },
            None => {
                match storage.find_actor_by_id(id, now) {
                    Some(actor) => {
                        proof {
                            assert(storage.actors().contains_key(id@));
                            assert(storage.actors()[id@].actor.id@ == id@);
                        }
                        cache_insert(
                            &mut self.cache,
                            id.to_owned(),
                            actor.duplicate(),
                            REFETCH_SECONDS,
                        );
                        proof {
                            assert forall|k: Seq<char>| #[trigger]
                                self.cached().contains_key(k) implies self.cached()[k].valid()
                                && authority_seq(self.cached()[k].id@) == authority_seq(k) by {
                                if k != id@ {
                                    assert(old(self).cached().contains_key(k));
                                }
                            }
                        }
                        Some(MaybeCached::Cached(actor))
                    },
                    None => None,
                }
            },
        }
    }

    /// Take in a freshly fetched actor document for `id` and validate it:
    /// the declared id must live under the authority of `id`, the declared
    /// key must be bound to that same authority, and the key's owner must be
    /// the declared actor itself. The accepted actor prefers the shared
    /// inbox, lands in the TTL cache, and refreshes the key material of the
    /// persisted row when one exists.
    pub fn get_no_cache(
        &mut self,
        storage: &mut Storage,
        id: &str,
        payload: &ActorPayload,
        now: u64,
    ) -> (r: Result<Actor, ErrorKind>)
        requires
            old(self).wf(),
            old(storage).wf(),
        ensures
            final(self).wf(),
            final(storage).wf(),
            final(self).following() == old(self).following(),
            final(storage).listeners() == old(storage).listeners(),
            spec_authority_of(id@) is None ==> r == Err::<Actor, ErrorKind>(
                ErrorKind::MissingDomain,
            ),
            r is Ok <==> {
                &&& spec_authority_of(id@) is Some
                &&& spec_authority_of(payload.id@) == spec_authority_of(id@)
                &&& spec_authority_of(payload.public_key_id@) == spec_authority_of(payload.id@)
                &&& payload.key_owner@ == payload.id@
            },
            r matches Ok(a) ==> {
                &&& a.id@ == payload.id@
                &&& a.public_key@ == payload.public_key_pem@
                &&& a.public_key_id@ == payload.public_key_id@
                &&& a.inbox@ == payload.spec_chosen_inbox()
                &&& a.valid()
                &&& final(self).cached().contains_pair(id@, a)
            },
            r is Err ==> final(storage).actors() == old(storage).actors() && final(self).cached()
                == old(self).cached(),
            r is Ok && !old(storage).actors().contains_key(id@) ==> final(storage).actors() == old(
                storage,
            ).actors(),
            r is Ok && old(storage).actors().contains_key(id@) ==> final(storage).actors() == old(
                storage,
            ).actors().insert(
                id@,
                ActorRow {
                    actor: Actor {
                        id: old(storage).actors()[id@].actor.id,
                        public_key: payload.public_key_pem,
                        public_key_id: payload.public_key_id,
                        inbox: old(storage).actors()[id@].actor.inbox,
                    },
                    listener_id: old(storage).actors()[id@].listener_id,
                    updated_at: old(storage).actors()[id@].updated_at,
                },
            ),
            old(self).followers_persisted(*old(storage)) ==> final(self).followers_persisted(
                *final(storage),
            ),
    {
        if authority_of(id).is_none() {
            return Err(ErrorKind::MissingDomain);
        }
        if !same_authority(payload.id.as_str(), id) {
            return Err(ErrorKind::HostMismatch);
        }
        if !same_authority(payload.public_key_id.as_str(), payload.id.as_str()) {
            return Err(ErrorKind::HostMismatch);
        }
        if !(payload.key_owner == payload.id) {
            return Err(ErrorKind::BadActor(payload.id.clone(), payload.key_owner.clone()));
        }
        let inbox = match &payload.shared_inbox {
            Some(s) => s.clone(),
            None => payload.inbox.clone(),
        };
        let actor = Actor {
            id: payload.id.clone(),
            public_key: payload.public_key_pem.clone(),
            public_key_id: payload.public_key_id.clone(),
            inbox,
        };
        cache_insert(&mut self.cache, id.to_owned(), actor.duplicate(), REFETCH_SECONDS);
        proof {
            assert forall|k: Seq<char>| #[trigger]
                self.cached().contains_key(k) implies self.cached()[k].valid() && authority_seq(
                self.cached()[k].id@,
            ) == authority_seq(k) by {
                if k != id@ {
                    assert(old(self).cached().contains_key(k));
                }
            }
        }
        match storage.update_actor_key(
            id,
            payload.public_key_pem.clone(),
            payload.public_key_id.clone(),
        ) {
            Ok(()) => {},
            Err(_) => {
                // the chain of authority checks above makes this impossible
                proof {
                    assert(false);
                }
            },
        }
        proof {
            if old(self).followers_persisted(*old(storage)) {
                assert forall|f: Seq<char>| #[trigger]
                    self.following().contains(f) implies storage.actors().contains_key(f) by {
                    assert(old(self).following().contains(f));
                    assert(old(storage).actors().contains_key(f));
                }
            }
        }
        Ok(actor)
    }

    /// Evict `id` from the TTL cache, forcing the next lookup back to
    /// storage or the network — the key-rotation path.
    pub fn evict(&mut self, id: &str)
        requires
            old(self).wf(),
        ensures
            final(self).wf(),
            final(self).cached() == old(self).cached().remove(id@),
            final(self).following() == old(self).following(),
    {
        cache_remove(&mut self.cache, id);
        proof {
            assert forall|k: Seq<char>| #[trigger]
                self.cached().contains_key(k) implies self.cached()[k].valid() && authority_seq(
                self.cached()[k].id@,
            ) == authority_seq(k) by {
                assert(old(self).cached().contains_key(k));
            }
        }
    }

    /// Rebuild the follower set from storage: the authoritative repair path,
    /// run every ten minutes. Afterwards the set is exactly the persisted
    /// actor ids.
    pub fn rehydrate(&mut self, storage: &Storage)
        requires
            old(self).wf(),
            storage.wf(),
        ensures
            final(self).wf(),
            final(self).cached() == old(self).cached(),
            final(self).following() =~= storage.actors().dom(),
            final(self).followers_persisted(*storage),
    {
        let ids = storage.all_actor_ids();
        let mut fresh = StringHashSet::new();
        let mut i: usize = 0;
        while i < ids.len()
            invariant
                0 <= i <= ids@.len(),
                crate::strvec::views(ids@) == storage.actor_id_seq(),
                storage.wf(),
                forall|p: int|
                    0 <= p < i ==> fresh@.contains(#[trigger] storage.actor_id_seq()[p]),
                forall|f: Seq<char>| #[trigger]
                    fresh@.contains(f) ==> storage.actor_id_seq().take(i as int).contains(f),
            decreases ids@.len() - i,
        {
            let ghost pre = fresh@;
            fresh.insert(ids[i].clone());
            proof {
                assert(fresh@ == pre.insert(storage.actor_id_seq()[i as int]));
                assert forall|f: Seq<char>| #[trigger]
                    fresh@.contains(f) implies storage.actor_id_seq().take(i + 1).contains(f) by {
                    if f == storage.actor_id_seq()[i as int] {
                        assert(storage.actor_id_seq().take(i + 1)[i as int] == f);
                    } else {
                        let p = storage.actor_id_seq().take(i as int).lemma_contains_to_index(f);
                        assert(storage.actor_id_seq().take(i + 1)[p] == f);
                    }
                }
            }
            i = i + 1;
        }
        self.following = fresh;
        proof {
            Self::lemma_wf_same_cache(*old(self), *self);
            assert(storage.actor_id_seq().take(storage.actor_id_seq().len() as int)
                =~= storage.actor_id_seq());
            assert forall|f: Seq<char>| #[trigger]
                self.following().contains(f) implies storage.actors().contains_key(f) by {
                let p = storage.actor_id_seq().lemma_contains_to_index(f);
            }
            assert forall|f: Seq<char>| #[trigger]
                storage.actors().contains_key(f) implies self.following().contains(f) by {
                let p = storage.actor_id_seq().lemma_contains_to_index(f);
            }
        }
    }
}

/// Every follower named by the set has a persisted actor row.
pub proof fn lemma_follower_persisted(cache: ActorCache, storage: Storage, f: Seq<char>)
    requires
        cache.followers_persisted(storage),
        cache.following().contains(f),
    ensures
        storage.actors().contains_key(f),
{
}

} // verus!
