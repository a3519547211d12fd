//! Liveness bookkeeping: the last time each authority answered at all.
//! The map accumulates in memory, can be listed for the admin, and is
//! periodically drained by a background flush that persists it.
use vstd::prelude::*;
use vstd::hash_map::StringHashMap;

use crate::strvec::views;

verus! {

/// Seconds between background flushes of the accumulated map.
pub const FLUSH_INTERVAL_SECONDS: u64 = 300;

/// When each authority was last seen online, in seconds, since the last
/// drain. An order vector mirrors the map's keys so they can be enumerated.
pub struct LastOnline {
    domains: StringHashMap<u64>,
    order: Vec<String>,
}

impl LastOnline {
    pub closed spec fn view(self) -> Map<Seq<char>, u64> {
        self.domains@
    }

    /// The enumerable authorities, in first-seen order.
    pub closed spec fn order_seq(self) -> Seq<Seq<char>> {
        views(self.order@)
    }

    /// The order vector names exactly the map's keys, each once.
    pub open spec fn wf(self) -> bool {
        &&& forall|i: int|
            0 <= i < self.order_seq().len() ==> self@.contains_key(#[trigger] self.order_seq()[i])
        &&& forall|k: Seq<char>| #[trigger] self@.contains_key(k) ==> self.order_seq().contains(k)
        &&& self.order_seq().no_duplicates()
    }

    /// An empty record.
    pub fn empty() -> (r: Self)
        ensures
            r@ == Map::<Seq<char>, u64>::empty(),
            r.wf(),
    {
        let r = LastOnline { domains: StringHashMap::new(), order: Vec::new() };
        proof {
            assert(r.order_seq() =~= Seq::<Seq<char>>::empty());
        }
        r
    }

    /// Record that `authority` answered at `now`.
    pub fn mark_seen(&mut self, authority: &str, now: u64)
        requires
            old(self).wf(),
        ensures
            final(self)@ == old(self)@.insert(authority@, now),
            final(self).wf(),
    {
        if !self.domains.contains_key(authority) {
            let ghost old_order = old(self).order_seq();
            self.order.push(authority.to_owned());
            proof {
                assert(self.order_seq() =~= old_order.push(authority@));
                assert(self.order_seq()[self.order_seq().len() - 1] == authority@);
                assert forall|i: int, j: int|
                    0 <= i < j < self.order_seq().len() implies self.order_seq()[i]
                    != self.order_seq()[j] by {
                    if j == self.order_seq().len() - 1 {
                        assert(old(self)@.contains_key(old_order[i]));
                    }
                }
            }
        }
        self.domains.insert(authority.to_owned(), now);
        proof {
            assert forall|k: Seq<char>| #[trigger]
                self@.contains_key(k) implies self.order_seq().contains(k) by {
                if k != authority@ {
                    assert(old(self)@.contains_key(k));
                    let i = old(self).order_seq().lemma_contains_to_index(k);
                    assert(self.order_seq()[i] == k);
                } else {
                    if old(self)@.contains_key(authority@) {
                        let i = old(self).order_seq().lemma_contains_to_index(k);
                        assert(self.order_seq()[i] == k);
                    } else {
                        assert(self.order_seq()[self.order_seq().len() - 1] == k);
                    }
                }
            }
        }
    }

    /// When `authority` was last seen, if it was.
    pub fn last_seen(&self, authority: &str) -> (r: Option<u64>)
        ensures
            r matches Some(t) ==> self@.contains_key(authority@) && self@[authority@] == t,
            r is None ==> !self@.contains_key(authority@),
    {
        match self.domains.get(authority) {
            Some(t) => Some(*t),
            None => None,
        }
    }

    /// Every recorded pair, in first-seen order.
    #[verifier::loop_isolation(false)]
    pub fn snapshot(&self) -> (r: Vec<(String, u64)>)
        requires
            self.wf(),
        ensures
            r@.len() == self.order_seq().len(),
            forall|i: int|
                0 <= i < r@.len() ==> (#[trigger] r@[i]).0@ == self.order_seq()[i]
                    && self@.contains_pair(r@[i].0@, r@[i].1),
    {
        let mut out: Vec<(String, u64)> = Vec::new();
        let mut i: usize = 0;
        while i < self.order.len()
            invariant
                0 <= i <= self.order@.len(),
                out@.len() == i,
                forall|p: int|
                    0 <= p < i ==> (#[trigger] out@[p]).0@ == self.order_seq()[p]
                        && self@.contains_pair(out@[p].0@, out@[p].1),
            decreases self.order@.len() - i,
        {
            proof {
                assert(self@.contains_key(self.order_seq()[i as int]));
                assert(self.order_seq()[i as int] == self.order@[i as int]@);
            }
            let authority = self.order[i].clone();
            let at = match self.domains.get(authority.as_str()) {
                Some(t) => *t,
                None => {
                    proof {
                        assert(false);
                    }
                    vstd::pervasive::unreached()
                },
            };
            out.push((authority, at));
            i = i + 1;
        }
        out
    }

    /// Drain the accumulated pairs for persistence, leaving the record
    /// empty.
    pub fn take(&mut self) -> (r: Vec<(String, u64)>)
        requires
            old(self).wf(),
        ensures
            r@.len() == old(self).order_seq().len(),
            forall|i: int|
                0 <= i < r@.len() ==> (#[trigger] r@[i]).0@ == old(self).order_seq()[i] && old(
                    self,
                )@.contains_pair(r@[i].0@, r@[i].1),
            forall|k: Seq<char>| #[trigger]
                old(self)@.contains_key(k) ==> exists|i: int|
                    0 <= i < r@.len() && (#[trigger] r@[i]).0@ == k,
            final(self)@ == Map::<Seq<char>, u64>::empty(),
            final(self).wf(),
    {
        let out = self.snapshot();
        let mut fresh = LastOnline::empty();
        core::mem::swap(self, &mut fresh);
        proof {
            assert forall|k: Seq<char>| #[trigger]
                old(self)@.contains_key(k) implies exists|i: int|
                0 <= i < out@.len() && (#[trigger] out@[i]).0@ == k by {
                let i = old(self).order_seq().lemma_contains_to_index(k);
                assert(out@[i].0@ == k);
            }
        }
        out
    }
}

} // verus!
