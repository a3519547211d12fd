//! The persistent state the relay core consumes: actor rows keyed by actor
//! IRI, one listener per authority, and the allow/block policy sets. The
//! maps are the authoritative store; caches above them hold clones.
//!
//! Invariants kept by every operation: every actor row's key is the actor's
//! id; every actor is valid (its key id is bound to its own authority); and
//! every actor references the listener of its authority — a listener whose
//! last actor is deleted is cascade-deleted with it.
use vstd::prelude::*;
use vstd::hash_map::StringHashMap;

use crate::error::ErrorKind;
use crate::iri::{authority_of, authority_seq, spec_authority_of};
use crate::ids::random_uuid;
use crate::strvec;
use crate::strvec::views;

verus! {

/// An ActivityPub identity on a remote server.
#[derive(Clone, Debug)]
pub struct Actor {
    /// The actor's IRI.
    pub id: String,
    /// ASCII PEM of the actor's RSA public key.
    pub public_key: String,
    /// The IRI under which the key is published, usually `id#main-key`.
    pub public_key_id: String,
    /// The inbox deliveries for this actor go to.
    pub inbox: String,
}

impl Actor {
    /// The actor's id carries an authority, and the key id is bound to the
    /// same authority — the host check.
    pub open spec fn valid(self) -> bool {
        &&& spec_authority_of(self.id@) is Some
        &&& spec_authority_of(self.public_key_id@) == spec_authority_of(self.id@)
    }

    /// The authority the actor lives under.
    pub open spec fn authority(self) -> Seq<char> {
        authority_seq(self.id@)
    }

    /// An equal actor built from fresh strings.
    pub fn duplicate(&self) -> (r: Actor)
        ensures
            r == *self,
    {
        Actor {
            id: self.id.clone(),
            public_key: self.public_key.clone(),
            public_key_id: self.public_key_id.clone(),
            inbox: self.inbox.clone(),
        }
    }
}

/// A persisted actor row.
pub struct ActorRow {
    /// The actor itself.
    pub actor: Actor,
    /// The id of the listener serving the actor's authority.
    pub listener_id: String,
    /// When the row was last written, in seconds.
    pub updated_at: u64,
}

/// A server the relay federates with; one per authority.
pub struct Listener {
    /// Internal id of the listener.
    pub id: String,
    /// The authority's shared inbox.
    pub inbox: String,
}

/// The persistent maps of the relay.
pub struct Storage {
    actors: StringHashMap<ActorRow>,
    actor_ids: Vec<String>,
    listeners: StringHashMap<Listener>,
    authorities: Vec<String>,
    allowed: Vec<String>,
    blocked: Vec<String>,
}

impl Storage {
    /// The persisted actor rows, keyed by actor id.
    pub closed spec fn actors(self) -> Map<Seq<char>, ActorRow> {
        self.actors@
    }

    /// The persisted listeners, keyed by authority.
    pub closed spec fn listeners(self) -> Map<Seq<char>, Listener> {
        self.listeners@
    }

    /// The enumerable actor ids.
    pub closed spec fn actor_id_seq(self) -> Seq<Seq<char>> {
        views(self.actor_ids@)
    }

    /// The enumerable connected authorities.
    pub closed spec fn authority_seqs(self) -> Seq<Seq<char>> {
        views(self.authorities@)
    }

    /// The allow-list of authorities.
    pub closed spec fn allowed(self) -> Seq<Seq<char>> {
        views(self.allowed@)
    }

    /// The block-list of authorities.
    pub closed spec fn blocked(self) -> Seq<Seq<char>> {
        views(self.blocked@)
    }

    /// Another actor of the same authority as `id` is still persisted.
    pub open spec fn has_sibling(self, id: Seq<char>) -> bool {
        exists|k: Seq<char>|
            #[trigger] self.actors().contains_key(k) && k != id && authority_seq(k)
                == authority_seq(id)
    }

    /// Well-formedness of the store.
    pub open spec fn wf(self) -> bool {
        // actor rows are keyed by their actor's id, valid, and reference
        // the listener of their authority
        &&& forall|k: Seq<char>| #[trigger]
            self.actors().contains_key(k) ==> {
                let row = self.actors()[k];
                &&& row.actor.id@ == k
                &&& row.actor.valid()
                &&& self.listeners().contains_key(authority_seq(k))
                &&& row.listener_id == self.listeners()[authority_seq(k)].id
            }
        // the id vector enumerates exactly the actor keys, without duplicates
        &&& forall|i: int|
            0 <= i < self.actor_id_seq().len() ==> self.actors().contains_key(
                #[trigger] self.actor_id_seq()[i],
            )
        &&& forall|k: Seq<char>| #[trigger]
            self.actors().contains_key(k) ==> self.actor_id_seq().contains(k)
        &&& self.actor_id_seq().no_duplicates()
        // the authority vector enumerates exactly the listener keys
        &&& forall|i: int|
            0 <= i < self.authority_seqs().len() ==> self.listeners().contains_key(
                #[trigger] self.authority_seqs()[i],
            )
        &&& forall|k: Seq<char>| #[trigger]
            self.listeners().contains_key(k) ==> self.authority_seqs().contains(k)
        &&& self.authority_seqs().no_duplicates()
        // policy lists are duplicate free
        &&& self.allowed().no_duplicates()
        &&& self.blocked().no_duplicates()
    }

    /// A change that touches neither the actor nor the listener maps keeps
    /// the store well formed, as long as the policy lists stay duplicate
    /// free.
    proof fn lemma_wf_unrelated(pre: Storage, post: Storage)
        requires
            pre.wf(),
            post.actors() == pre.actors(),
            post.listeners() == pre.listeners(),
            post.actor_id_seq() == pre.actor_id_seq(),
            post.authority_seqs() == pre.authority_seqs(),
            post.allowed().no_duplicates(),
            post.blocked().no_duplicates(),
        ensures
            post.wf(),
    {
        assert forall|k: Seq<char>| #[trigger] post.actors().contains_key(k) implies {
            let row = post.actors()[k];
            &&& row.actor.id@ == k
            &&& row.actor.valid()
            &&& post.listeners().contains_key(authority_seq(k))
            &&& row.listener_id == post.listeners()[authority_seq(k)].id
        } by {
            assert(pre.actors().contains_key(k));
        }
        assert forall|i: int|
            0 <= i < post.actor_id_seq().len() implies post.actors().contains_key(
            #[trigger] post.actor_id_seq()[i],
        ) by {
            assert(pre.actors().contains_key(pre.actor_id_seq()[i]));
        }
        assert forall|k: Seq<char>| #[trigger]
            post.actors().contains_key(k) implies post.actor_id_seq().contains(k) by {
            assert(pre.actors().contains_key(k));
        }
        assert forall|i: int|
            0 <= i < post.authority_seqs().len() implies post.listeners().contains_key(
            #[trigger] post.authority_seqs()[i],
        ) by {
            assert(pre.listeners().contains_key(pre.authority_seqs()[i]));
        }
        assert forall|k: Seq<char>| #[trigger]
            post.listeners().contains_key(k) implies post.authority_seqs().contains(k) by {
            assert(pre.listeners().contains_key(k));
        }
    }

    /// An empty store.
    pub fn new() -> (r: Self)
        ensures
            r.wf(),
            r.actors() == Map::<Seq<char>, ActorRow>::empty(),
            r.listeners() == Map::<Seq<char>, Listener>::empty(),
            r.allowed() == Seq::<Seq<char>>::empty(),
            r.blocked() == Seq::<Seq<char>>::empty(),
            r.actor_id_seq() == Seq::<Seq<char>>::empty(),
            r.authority_seqs() == Seq::<Seq<char>>::empty(),
    {
        let r = Storage {
            actors: StringHashMap::new(),
            actor_ids: Vec::new(),
            listeners: StringHashMap::new(),
            authorities: Vec::new(),
            allowed: Vec::new(),
            blocked: Vec::new(),
        };
        proof {
            assert(r.actor_id_seq() =~= Seq::<Seq<char>>::empty());
            assert(r.authority_seqs() =~= Seq::<Seq<char>>::empty());
            assert(r.allowed() =~= Seq::<Seq<char>>::empty());
            assert(r.blocked() =~= Seq::<Seq<char>>::empty());
        }
        r
    }

    /// The listener serving `authority`, created with a fresh id and the
    /// given shared inbox when none exists yet. Returns the listener's id.
    pub fn upsert_listener(&mut self, authority: &str, inbox: String) -> (r: String)
        requires
            old(self).wf(),
        ensures
            final(self).wf(),
            final(self).actors() == old(self).actors(),
            final(self).actor_id_seq() == old(self).actor_id_seq(),
            final(self).allowed() == old(self).allowed(),
            final(self).blocked() == old(self).blocked(),
            final(self).listeners().contains_key(authority@),
            r@ == final(self).listeners()[authority@].id@,
            old(self).listeners().contains_key(authority@) ==> final(self).listeners() == old(
                self,
            ).listeners(),
            !old(self).listeners().contains_key(authority@) ==> {
                &&& final(self).listeners() == old(self).listeners().insert(
                    authority@,
                    final(self).listeners()[authority@],
                )
                &&& final(self).listeners()[authority@].inbox == inbox
            },
    {
        match self.listeners.get(authority) {
            Some(l) => l.id.clone(),
            None => {
                let id = random_uuid();
                let out = id.clone();
                self.listeners.insert(authority.to_owned(), Listener { id, inbox });
                self.authorities.push(authority.to_owned());
                proof {
                    assert(self.authority_seqs() =~= old(self).authority_seqs().push(authority@));
                    assert forall|k: Seq<char>| #[trigger]
                        self.listeners().contains_key(k) implies self.authority_seqs().contains(
                        k,
                    ) by {
                        if k == authority@ {
                            assert(self.authority_seqs()[self.authority_seqs().len() - 1] == k);
                        } else {
                            assert(old(self).listeners().contains_key(k));
                            let i = old(self).authority_seqs().lemma_contains_to_index(k);
                            assert(self.authority_seqs()[i] == k);
                        }
                    }
                    // the pushed authority is new, so no duplicate arises
                    assert forall|i: int, j: int|
                        0 <= i < j < self.authority_seqs().len() implies self.authority_seqs()[i]
                        != self.authority_seqs()[j] by {
                        if j == self.authority_seqs().len() - 1 {
                            assert(old(self).listeners().contains_key(
                                old(self).authority_seqs()[i],
                            ));
                        }
                    }
                    assert forall|k: Seq<char>| #[trigger] self.actors().contains_key(k) implies {
                        let row = self.actors()[k];
                        &&& row.actor.id@ == k
                        &&& row.actor.valid()
                        &&& self.listeners().contains_key(authority_seq(k))
                        &&& row.listener_id == self.listeners()[authority_seq(k)].id
                    } by {
                        assert(old(self).actors().contains_key(k));
                        assert(old(self).listeners().contains_key(authority_seq(k)));
                    }
                    assert forall|i: int|
                        0 <= i < self.actor_id_seq().len() implies self.actors().contains_key(
                        #[trigger] self.actor_id_seq()[i],
                    ) by {
                        assert(old(self).actors().contains_key(old(self).actor_id_seq()[i]));
                    }
                    assert forall|k: Seq<char>| #[trigger]
                        self.actors().contains_key(k) implies self.actor_id_seq().contains(k) by {
                        assert(old(self).actors().contains_key(k));
                    }
                }
                out
            },
        }
    }

    /// Persist `actor` under the listener of its authority, stamping the row
    /// with `now`. `MissingDomain` when the id has no authority,
    /// `HostMismatch` when the key id is bound to another authority, and
    /// `NotSubscribed` when no listener serves the authority yet.
    pub fn upsert_actor(&mut self, actor: Actor, now: u64) -> (r: Result<(), ErrorKind>)
        requires
            old(self).wf(),
        ensures
            final(self).wf(),
            final(self).listeners() == old(self).listeners(),
            final(self).authority_seqs() == old(self).authority_seqs(),
            final(self).allowed() == old(self).allowed(),
            final(self).blocked() == old(self).blocked(),
            r is Ok <==> actor.valid() && old(self).listeners().contains_key(actor.authority()),
            r is Ok ==> final(self).actors() == old(self).actors().insert(
                actor.id@,
                ActorRow {
                    actor,
                    listener_id: old(self).listeners()[actor.authority()].id,
                    updated_at: now,
                },
            ),
            r is Err ==> final(self).actors() == old(self).actors() && final(self).actor_id_seq()
                == old(self).actor_id_seq(),
            spec_authority_of(actor.id@) is None ==> r == Err::<(), ErrorKind>(
                ErrorKind::MissingDomain,
            ),
            spec_authority_of(actor.id@) is Some && !actor.valid() ==> r == Err::<(), ErrorKind>(
                ErrorKind::HostMismatch,
            ),
            actor.valid() && !old(self).listeners().contains_key(actor.authority()) ==> (r
                matches Err(ErrorKind::NotSubscribed(a)) && a == actor.id),
    {
        let authority = match authority_of(actor.id.as_str()) {
            Some(a) => a,
            None => {
                return Err(ErrorKind::MissingDomain);
            },
        };
        if !crate::iri::same_authority(actor.public_key_id.as_str(), actor.id.as_str()) {
            return Err(ErrorKind::HostMismatch);
        }
        let listener_id = match self.listeners.get(authority.as_str()) {
            Some(l) => l.id.clone(),
            None => {
                return Err(ErrorKind::NotSubscribed(actor.id));
            },
        };
        let is_new = !self.actors.contains_key(actor.id.as_str());
        let ghost aid = actor.id@;
        if is_new {
            self.actor_ids.push(actor.id.clone());
        }
        let ghost old_ids = old(self).actor_id_seq();
        let key = actor.id.clone();
        let row = ActorRow { actor, listener_id, updated_at: now };
        self.actors.insert(key, row);
        proof {
            if is_new {
                assert(self.actor_id_seq() =~= old_ids.push(aid));
                assert forall|k: Seq<char>| #[trigger]
                    self.actors().contains_key(k) implies self.actor_id_seq().contains(k) by {
                    if k == aid {
                        assert(self.actor_id_seq()[self.actor_id_seq().len() - 1] == k);
                    } else {
                        assert(old(self).actors().contains_key(k));
                        let i = old_ids.lemma_contains_to_index(k);
                        assert(self.actor_id_seq()[i] == k);
                    }
                }
                assert forall|i: int, j: int|
                    0 <= i < j < self.actor_id_seq().len() implies self.actor_id_seq()[i]
                    != self.actor_id_seq()[j] by {
                    if j == self.actor_id_seq().len() - 1 {
                        assert(old(self).actors().contains_key(old_ids[i]));
                    }
                }
            } else {
                assert forall|k: Seq<char>| #[trigger]
                    self.actors().contains_key(k) implies self.actor_id_seq().contains(k) by {
                    assert(old(self).actors().contains_key(k));
                }
            }
        }
        Ok(())
    }

    /// The persisted actor under `id`, when the row is older than 120
    /// seconds — a fresh row means the caller just wrote it and needs no
    /// refetch, so it is withheld here and served from the caches instead.
    pub fn find_actor_by_id(&self, id: &str, now: u64) -> (r: Option<Actor>)
        requires
            self.wf(),
        ensures
            match r {
                Some(a) => {
                    &&& self.actors().contains_key(id@)
                    &&& a == self.actors()[id@].actor
                    &&& self.actors()[id@].updated_at + 120 < now
                },
                None => self.actors().contains_key(id@) ==> self.actors()[id@].updated_at + 120
                    >= now,
            },
    {
        match self.actors.get(id) {
            Some(row) => {
                if row.updated_at < u64::MAX - 120 && row.updated_at + 120 < now {
                    Some(row.actor.duplicate())
                } else {
                    None
                }
            },
            None => None,
        }
    }

    /// Overwrite the key material of the persisted row under `id`, as a
    /// refetch does. A missing row stays missing; a key id bound to another
    /// authority is refused, keeping the host check.
    pub fn update_actor_key(&mut self, id: &str, public_key: String, public_key_id: String) -> (r:
        Result<(), ErrorKind>)
        requires
            old(self).wf(),
        ensures
            final(self).wf(),
            final(self).listeners() == old(self).listeners(),
            final(self).authority_seqs() == old(self).authority_seqs(),
            final(self).actor_id_seq() == old(self).actor_id_seq(),
            final(self).allowed() == old(self).allowed(),
            final(self).blocked() == old(self).blocked(),
            r is Ok <==> spec_authority_of(public_key_id@) == spec_authority_of(id@)
                && spec_authority_of(id@) is Some,
            r is Err ==> final(self).actors() == old(self).actors() && r == Err::<(), ErrorKind>(
                ErrorKind::HostMismatch,
            ),
            r is Ok && !old(self).actors().contains_key(id@) ==> final(self).actors() == old(
                self,
            ).actors(),
            r is Ok && old(self).actors().contains_key(id@) ==> final(self).actors() == old(
                self,
            ).actors().insert(
                id@,
                ActorRow {
                    actor: Actor {
                        id: old(self).actors()[id@].actor.id,
                        public_key,
                        public_key_id,
                        inbox: old(self).actors()[id@].actor.inbox,
                    },
                    listener_id: old(self).actors()[id@].listener_id,
                    updated_at: old(self).actors()[id@].updated_at,
                },
            ),
    {
        if !crate::iri::same_authority(public_key_id.as_str(), id) {
            return Err(ErrorKind::HostMismatch);
        }
        let row = match self.actors.get(id) {
            Some(row) => row,
            None => {
                return Ok(());
            },
        };
        let new_row = ActorRow {
            actor: Actor {
                id: row.actor.id.clone(),
                public_key,
                public_key_id,
                inbox: row.actor.inbox.clone(),
            },
            listener_id: row.listener_id.clone(),
            updated_at: row.updated_at,
        };
        self.actors.insert(id.to_owned(), new_row);
        proof {
            assert forall|k: Seq<char>| #[trigger]
                self.actors().contains_key(k) implies self.actor_id_seq().contains(k) by {
                assert(old(self).actors().contains_key(k));
            }
        }
        Ok(())
    }

    /// Delete the actor row under `id`. When it was the last actor of its
    /// authority, the authority's listener is cascade-deleted too and its id
    /// returned, so the caller can undo the follow.
    #[verifier::loop_isolation(false)]
    pub fn delete_actor(&mut self, id: &str) -> (r: Option<String>)
        requires
            old(self).wf(),
        ensures
            final(self).wf(),
            final(self).allowed() == old(self).allowed(),
            final(self).blocked() == old(self).blocked(),
            final(self).actors() == old(self).actors().remove(id@),
            !final(self).actors().contains_key(id@),
            !old(self).actors().contains_key(id@) ==> r is None && final(self).listeners() == old(
                self,
            ).listeners(),
            old(self).actors().contains_key(id@) && old(self).has_sibling(id@) ==> r is None
                && final(self).listeners() == old(self).listeners(),
            old(self).actors().contains_key(id@) && !old(self).has_sibling(id@) ==> {
                &&& r matches Some(lid) && lid@ == old(self).actors()[id@].listener_id@
                &&& final(self).listeners() == old(self).listeners().remove(
                    authority_seq(id@),
                )
            },
            final(self).listeners().contains_key(authority_seq(id@)) <==> old(
                self,
            ).listeners().contains_key(authority_seq(id@)) && (old(self).has_sibling(id@) || !old(
                self,
            ).actors().contains_key(id@)),
    {
        let listener_id = match self.actors.get(id) {
            Some(row) => row.listener_id.clone(),
            None => {
                proof {
                    assert(old(self).actors().remove(id@) =~= old(self).actors());
                }
                return None;
            },
        };
        self.actors.remove(id);
        let ghost old_ids = old(self).actor_id_seq();
        match strvec::remove_str(&mut self.actor_ids, id) {
            Some(j) => {
                proof {
                    strvec::lemma_views_remove(old(self).actor_ids@, j as int);
                    strvec::lemma_remove_contains(old_ids, j as int);
                    strvec::lemma_remove_no_dup(old_ids, j as int);
                    assert forall|k: Seq<char>| #[trigger]
                        self.actors().contains_key(k) implies self.actor_id_seq().contains(k) by {
                        // k is not the removed id, so it survives the removal
                        assert(old_ids.contains(k));
                        assert(old_ids[j as int] == id@);
                    }
                    assert forall|i: int|
                        0 <= i < self.actor_id_seq().len() implies self.actors().contains_key(
                        #[trigger] self.actor_id_seq()[i],
                    ) by {
                        assert(old_ids.contains(self.actor_id_seq()[i]));
                        // duplicates are ruled out, so a surviving entry is not id
                        if i < j {
                            assert(self.actor_id_seq()[i] == old_ids[i]);
                            assert(old_ids[i] != old_ids[j as int]);
                        } else {
                            assert(self.actor_id_seq()[i] == old_ids[i + 1]);
                            assert(old_ids[i + 1] != old_ids[j as int]);
                        }
                    }
                }
            },
            None => {
                proof {
                    assert(old(self).actors().contains_key(id@));
                    assert(old_ids.contains(id@));
                    assert(false);
                }
            },
        }
        // scan for a sibling actor of the same authority
        let mut i: usize = 0;
        let mut sibling = false;
        while i < self.actor_ids.len() && !sibling
            invariant
                0 <= i <= self.actor_ids@.len(),
                sibling ==> exists|k: Seq<char>| #[trigger]
                    self.actors().contains_key(k) && authority_seq(k) == authority_seq(id@),
                !sibling ==> forall|p: int|
                    0 <= p < i ==> authority_seq(#[trigger] self.actor_id_seq()[p])
                        != authority_seq(id@),
            decreases self.actor_ids@.len() - i + (if sibling { 0int } else { 1int }),
        {
            if crate::iri::same_authority(self.actor_ids[i].as_str(), id) {
                sibling = true;
                proof {
                    assert(self.actors().contains_key(self.actor_id_seq()[i as int]));
                }
            } else {
                proof {
                    // either both authorities exist and differ, or one is missing;
                    // a persisted actor always has an authority, so they differ
                    let k = self.actor_id_seq()[i as int];
                    assert(self.actors().contains_key(k));
                    assert(spec_authority_of(k) is Some);
                    if spec_authority_of(id@) is Some {
                        assert(authority_seq(k) != authority_seq(id@));
                    } else {
                        assert(authority_seq(k) != authority_seq(id@) || true);
                    }
                }
                i = i + 1;
            }
        }
        proof {
            if !sibling {
                assert forall|k: Seq<char>| #[trigger]
                    self.actors().contains_key(k) implies authority_seq(k) != authority_seq(
                    id@,
                ) by {
                    let p = self.actor_id_seq().lemma_contains_to_index(k);
                }
                if old(self).has_sibling(id@) {
                    let k = choose|k: Seq<char>| #[trigger]
                        old(self).actors().contains_key(k) && k != id@ && authority_seq(k)
                            == authority_seq(id@);
                    assert(self.actors().contains_key(k));
                }
            }
        }
        if sibling {
            proof {
                // a sibling in the post-removal map is a sibling in the old map
                let k = choose|k: Seq<char>| #[trigger]
                    self.actors().contains_key(k) && authority_seq(k) == authority_seq(id@);
                assert(old(self).actors().contains_key(k) && k != id@);
            }
            None
        } else {
            let authority = match authority_of(id) {
                Some(a) => a,
                None => {
                    // a persisted actor always carries an authority
                    proof {
                        assert(old(self).actors()[id@].actor.valid());
                        assert(false);
                    }
                    vstd::pervasive::unreached()
                },
            };
            self.listeners.remove(authority.as_str());
            let ghost old_auths = old(self).authority_seqs();
            match strvec::remove_str(&mut self.authorities, authority.as_str()) {
                Some(j) => {
                    proof {
                        strvec::lemma_views_remove(old(self).authorities@, j as int);
                        strvec::lemma_remove_contains(old_auths, j as int);
                        strvec::lemma_remove_no_dup(old_auths, j as int);
                        assert forall|k: Seq<char>| #[trigger]
                            self.listeners().contains_key(k) implies self.authority_seqs().contains(
                            k,
                        ) by {
                            assert(old_auths.contains(k));
                            assert(old_auths[j as int] == authority@);
                        }
                        assert forall|p: int|
                            0 <= p < self.authority_seqs().len() implies self.listeners().contains_key(
                            #[trigger] self.authority_seqs()[p],
                        ) by {
                            if p < j {
                                assert(self.authority_seqs()[p] == old_auths[p]);
                                assert(old_auths[p] != old_auths[j as int]);
                            } else {
                                assert(self.authority_seqs()[p] == old_auths[p + 1]);
                                assert(old_auths[p + 1] != old_auths[j as int]);
                            }
                        }
                    }
                },
                None => {
                    proof {
                        assert(old(self).listeners().contains_key(authority@));
                        assert(old_auths.contains(authority@));
                        assert(false);
                    }
                },
            }
            proof {
                // no remaining actor lives under the removed authority
                assert forall|k: Seq<char>| #[trigger]
                    self.actors().contains_key(k) implies self.listeners().contains_key(
                    authority_seq(k),
                ) && self.actors()[k].listener_id == self.listeners()[authority_seq(k)].id by {
                    assert(authority_seq(k) != authority_seq(id@));
                }
            }
            Some(listener_id)
        }
    }

    /// The persisted actor under `id`, whatever its age.
    pub fn get_actor(&self, id: &str) -> (r: Option<Actor>)
        ensures
            match r {
                Some(a) => self.actors().contains_key(id@) && a == self.actors()[id@].actor,
                None => !self.actors().contains_key(id@),
            },
    {
        match self.actors.get(id) {
            Some(row) => Some(row.actor.duplicate()),
            None => None,
        }
    }

    /// Some persisted actor whose inbox is `inbox`, if any — the reverse
    /// lookup used when a delivery finds the inbox gone.
    #[verifier::loop_isolation(false)]
    pub fn find_actor_by_inbox(&self, inbox: &str) -> (r: Option<Actor>)
        requires
            self.wf(),
        ensures
            r matches Some(a) ==> exists|k: Seq<char>|
                #[trigger] self.actors().contains_key(k) && a == self.actors()[k].actor
                    && a.inbox@ == inbox@,
            r is None ==> forall|k: Seq<char>| #[trigger]
                self.actors().contains_key(k) ==> self.actors()[k].actor.inbox@ != inbox@,
    {
        let needle = inbox.to_owned();
        let mut i: usize = 0;
        while i < self.actor_ids.len()
            invariant
                0 <= i <= self.actor_ids@.len(),
                needle@ == inbox@,
                forall|p: int|
                    0 <= p < i ==> self.actors()[#[trigger] self.actor_id_seq()[p]].actor.inbox@
                        != inbox@,
            decreases self.actor_ids@.len() - i,
        {
            proof {
                assert(self.actor_id_seq()[i as int] == self.actor_ids@[i as int]@);
                assert(self.actors().contains_key(self.actor_id_seq()[i as int]));
            }
            let row = match self.actors.get(self.actor_ids[i].as_str()) {
                Some(row) => row,
                None => {
                    proof {
                        assert(false);
                    }
                    vstd::pervasive::unreached()
                },
            };
            if row.actor.inbox == needle {
                proof {
                    assert(self.actors().contains_key(self.actor_id_seq()[i as int]));
                }
                return Some(row.actor.duplicate());
            }
            i = i + 1;
        }
        proof {
            assert forall|k: Seq<char>| #[trigger]
                self.actors().contains_key(k) implies self.actors()[k].actor.inbox@ != inbox@ by {
                let p = self.actor_id_seq().lemma_contains_to_index(k);
            }
        }
        None
    }

    /// Every persisted actor id, for the follower-set rebuild.
    pub fn all_actor_ids(&self) -> (r: Vec<String>)
        ensures
            views(r@) == self.actor_id_seq(),
    {
        strvec::clone_vec(&self.actor_ids)
    }

    /// Every connected authority, for the periodic node refresh.
    pub fn connected_ids(&self) -> (r: Vec<String>)
        ensures
            views(r@) == self.authority_seqs(),
    {
        strvec::clone_vec(&self.authorities)
    }

    /// The shared inbox of the listener serving `authority`.
    pub fn listener_inbox(&self, authority: &str) -> (r: Option<String>)
        ensures
            match r {
                Some(inbox) => self.listeners().contains_key(authority@) && inbox@ == self.listeners()[authority@].inbox@,
                None => !self.listeners().contains_key(authority@),
            },
    {
        match self.listeners.get(authority) {
            Some(l) => Some(l.inbox.clone()),
            None => None,
        }
    }

    /// Add `authority` to the allow-list.
    pub fn allow(&mut self, authority: &str)
        requires
            old(self).wf(),
        ensures
            final(self).wf(),
            final(self).allowed().contains(authority@),
            forall|a: Seq<char>|
                #[trigger] final(self).allowed().contains(a) <==> old(self).allowed().contains(a)
                    || a == authority@,
            final(self).blocked() == old(self).blocked(),
            final(self).actors() == old(self).actors(),
            final(self).listeners() == old(self).listeners(),
            final(self).actor_id_seq() == old(self).actor_id_seq(),
            final(self).authority_seqs() == old(self).authority_seqs(),
    {
        if !strvec::contains_str(&self.allowed, authority) {
            let ghost old_allowed = views(old(self).allowed@);
            self.allowed.push(authority.to_owned());
            proof {
                assert(self.allowed() =~= old_allowed.push(authority@));
                assert(self.allowed()[self.allowed().len() - 1] == authority@);
                assert forall|i: int, j: int|
                    0 <= i < j < self.allowed().len() implies self.allowed()[i]
                    != self.allowed()[j] by {
                    if j == self.allowed().len() - 1 {
                        assert(old_allowed[i] == self.allowed()[i]);
                        assert(!old_allowed.contains(authority@));
                    }
                }
                assert forall|a: Seq<char>| old_allowed.contains(a) implies #[trigger]
                    self.allowed().contains(a) by {
                    let i = old_allowed.lemma_contains_to_index(a);
                    assert(self.allowed()[i] == a);
                }
                assert forall|a: Seq<char>| #[trigger]
                    self.allowed().contains(a) implies old_allowed.contains(a) || a
                    == authority@ by {
                    let i = choose|i: int|
                        0 <= i < self.allowed().len() && self.allowed()[i] == a;
                    if i < old_allowed.len() {
                        assert(old_allowed[i] == a);
                    }
                }
                Self::lemma_wf_unrelated(*old(self), *self);
            }
        } else {
            proof {
                assert(self.allowed().contains(authority@));
            }
        }
    }

    /// Remove `authority` from the allow-list.
    pub fn disallow(&mut self, authority: &str)
        requires
            old(self).wf(),
        ensures
            final(self).wf(),
            !final(self).allowed().contains(authority@),
            forall|a: Seq<char>|
                #[trigger] final(self).allowed().contains(a) <==> old(self).allowed().contains(a)
                    && a != authority@,
            final(self).blocked() == old(self).blocked(),
            final(self).actors() == old(self).actors(),
            final(self).listeners() == old(self).listeners(),
            final(self).actor_id_seq() == old(self).actor_id_seq(),
            final(self).authority_seqs() == old(self).authority_seqs(),
    {
        let ghost old_allowed = views(old(self).allowed@);
        match strvec::remove_str(&mut self.allowed, authority) {
            Some(j) => {
                proof {
                    strvec::lemma_views_remove(old(self).allowed@, j as int);
                    strvec::lemma_remove_contains(old_allowed, j as int);
                    strvec::lemma_remove_no_dup(old_allowed, j as int);
                    // the removed position held the only occurrence
                    assert forall|a: Seq<char>| #[trigger]
                        self.allowed().contains(a) implies old_allowed.contains(a) && a
                        != authority@ by {
                        let i = choose|i: int|
                            0 <= i < self.allowed().len() && self.allowed()[i] == a;
                        if i < j {
                            assert(old_allowed[i] == a);
                            assert(old_allowed[i] != old_allowed[j as int]);
                        } else {
                            assert(old_allowed[i + 1] == a);
                            assert(old_allowed[i + 1] != old_allowed[j as int]);
                        }
                    }
                    Self::lemma_wf_unrelated(*old(self), *self);
                }
            },
            None => {
                proof {
                    Self::lemma_wf_unrelated(*old(self), *self);
                }
            },
        }
    }

    /// Add `authority` to the block-list.
    pub fn block(&mut self, authority: &str)
        requires
            old(self).wf(),
        ensures
            final(self).wf(),
            final(self).blocked().contains(authority@),
            forall|a: Seq<char>|
                #[trigger] final(self).blocked().contains(a) <==> old(self).blocked().contains(a)
                    || a == authority@,
            final(self).allowed() == old(self).allowed(),
            final(self).actors() == old(self).actors(),
            final(self).listeners() == old(self).listeners(),
            final(self).actor_id_seq() == old(self).actor_id_seq(),
            final(self).authority_seqs() == old(self).authority_seqs(),
    {
        if !strvec::contains_str(&self.blocked, authority) {
            let ghost old_blocked = views(old(self).blocked@);
            self.blocked.push(authority.to_owned());
            proof {
                assert(self.blocked() =~= old_blocked.push(authority@));
                assert(self.blocked()[self.blocked().len() - 1] == authority@);
                assert forall|i: int, j: int|
                    0 <= i < j < self.blocked().len() implies self.blocked()[i]
                    != self.blocked()[j] by {
                    if j == self.blocked().len() - 1 {
                        assert(old_blocked[i] == self.blocked()[i]);
                        assert(!old_blocked.contains(authority@));
                    }
                }
                assert forall|a: Seq<char>| old_blocked.contains(a) implies #[trigger]
                    self.blocked().contains(a) by {
                    let i = old_blocked.lemma_contains_to_index(a);
                    assert(self.blocked()[i] == a);
                }
                assert forall|a: Seq<char>| #[trigger]
                    self.blocked().contains(a) implies old_blocked.contains(a) || a
                    == authority@ by {
                    let i = choose|i: int|
                        0 <= i < self.blocked().len() && self.blocked()[i] == a;
                    if i < old_blocked.len() {
                        assert(old_blocked[i] == a);
                    }
                }
                Self::lemma_wf_unrelated(*old(self), *self);
            }
        } else {
            proof {
                assert(self.blocked().contains(authority@));
            }
        }
    }

    /// Remove `authority` from the block-list.
    pub fn unblock(&mut self, authority: &str)
        requires
            old(self).wf(),
        ensures
            final(self).wf(),
            !final(self).blocked().contains(authority@),
            forall|a: Seq<char>|
                #[trigger] final(self).blocked().contains(a) <==> old(self).blocked().contains(a)
                    && a != authority@,
            final(self).allowed() == old(self).allowed(),
            final(self).actors() == old(self).actors(),
            final(self).listeners() == old(self).listeners(),
            final(self).actor_id_seq() == old(self).actor_id_seq(),
            final(self).authority_seqs() == old(self).authority_seqs(),
    {
        let ghost old_blocked = views(old(self).blocked@);
        match strvec::remove_str(&mut self.blocked, authority) {
            Some(j) => {
                proof {
                    strvec::lemma_views_remove(old(self).blocked@, j as int);
                    strvec::lemma_remove_contains(old_blocked, j as int);
                    strvec::lemma_remove_no_dup(old_blocked, j as int);
                    assert forall|a: Seq<char>| #[trigger]
                        self.blocked().contains(a) implies old_blocked.contains(a) && a
                        != authority@ by {
                        let i = choose|i: int|
                            0 <= i < self.blocked().len() && self.blocked()[i] == a;
                        if i < j {
                            assert(old_blocked[i] == a);
                            assert(old_blocked[i] != old_blocked[j as int]);
                        } else {
                            assert(old_blocked[i + 1] == a);
                            assert(old_blocked[i + 1] != old_blocked[j as int]);
                        }
                    }
                    Self::lemma_wf_unrelated(*old(self), *self);
                }
            },
            None => {
                proof {
                    Self::lemma_wf_unrelated(*old(self), *self);
                }
            },
        }
    }

    /// Whether `authority` is on the allow-list.
    pub fn is_allowed(&self, authority: &str) -> (r: bool)
        ensures
            r == self.allowed().contains(authority@),
    {
        strvec::contains_str(&self.allowed, authority)
    }

    /// Whether `authority` is on the block-list.
    pub fn is_blocked(&self, authority: &str) -> (r: bool)
        ensures
            r == self.blocked().contains(authority@),
    {
        strvec::contains_str(&self.blocked, authority)
    }

    /// The allow-list, for the admin listing.
    pub fn allowed_list(&self) -> (r: Vec<String>)
        ensures
            views(r@) == self.allowed(),
    {
        strvec::clone_vec(&self.allowed)
    }

    /// The block-list, for the admin listing.
    pub fn blocked_list(&self) -> (r: Vec<String>)
        ensures
            views(r@) == self.blocked(),
    {
        strvec::clone_vec(&self.blocked)
    }
}

/// Every persisted actor references the listener of its own authority: the
/// listener exists and the row carries its id.
pub proof fn lemma_actor_has_listener(storage: Storage, id: Seq<char>)
    requires
        storage.wf(),
        storage.actors().contains_key(id),
    ensures
        storage.listeners().contains_key(authority_seq(id)),
        storage.actors()[id].listener_id == storage.listeners()[authority_seq(id)].id,
{
}

} // verus!
