//! The media cache: a bijection between media ids the relay serves and the
//! remote URLs they stand for, so avatars and attachments are served from
//! the relay's own domain. Byte blobs are fetched lazily by a separate job.
use vstd::prelude::*;
use vstd::hash_map::StringHashMap;

use crate::ids::random_uuid;

verus! {

/// The id↔URL bijection.
pub struct MediaCache {
    url_to_id: StringHashMap<String>,
    id_to_url: StringHashMap<String>,
}

impl MediaCache {
    /// URL → media id.
    pub closed spec fn forward(self) -> Map<Seq<char>, String> {
        self.url_to_id@
    }

    /// Media id → URL.
    pub closed spec fn backward(self) -> Map<Seq<char>, String> {
        self.id_to_url@
    }

    /// The two maps invert each other.
    pub open spec fn wf(self) -> bool {
        &&& forall|u: Seq<char>| #[trigger]
            self.forward().contains_key(u) ==> self.backward().contains_key(self.forward()[u]@)
                && self.backward()[self.forward()[u]@]@ == u
        &&& forall|x: Seq<char>| #[trigger]
            self.backward().contains_key(x) ==> self.forward().contains_key(self.backward()[x]@)
                && self.forward()[self.backward()[x]@]@ == x
    }

    /// An empty cache.
    pub fn new() -> (r: Self)
        ensures
            r.wf(),
            forall|u: Seq<char>| !r.forward().contains_key(u),
            forall|x: Seq<char>| !r.backward().contains_key(x),
    {
        MediaCache { url_to_id: StringHashMap::new(), id_to_url: StringHashMap::new() }
    }

    /// The media id already standing for `url`, if any.
    pub fn get_uuid(&self, url: &str) -> (r: Option<String>)
        ensures
            r matches Some(x) ==> self.forward().contains_key(url@) && x@ == self.forward()[
                url@
            ]@,
            r is None ==> !self.forward().contains_key(url@),
    {
        match self.url_to_id.get(url) {
            Some(x) => Some(x.clone()),
            None => None,
        }
    }

    /// The remote URL a media id stands for, if any.
    pub fn get_url(&self, media_id: &str) -> (r: Option<String>)
        ensures
            r matches Some(u) ==> self.backward().contains_key(media_id@) && u@ == self.backward()[
                media_id@
            ]@,
            r is None ==> !self.backward().contains_key(media_id@),
    {
        match self.id_to_url.get(media_id) {
            Some(u) => Some(u.clone()),
            None => None,
        }
    }

    /// The media id for `url`: the one already stored, or a fresh one. Both
    /// directions of the bijection hold afterwards, so `get_url` of the
    /// result answers `url` and `get_uuid` of `url` answers the result. A
    /// drawn id that collides displaces the colliding pair; every other pair
    /// survives.
    pub fn store_url(&mut self, url: &str) -> (x: String)
        requires
            old(self).wf(),
        ensures
            final(self).wf(),
            final(self).forward().contains_key(url@) && final(self).forward()[url@]@ == x@,
            final(self).backward().contains_key(x@) && final(self).backward()[x@]@ == url@,
            old(self).forward().contains_key(url@) ==> {
                &&& x@ == old(self).forward()[url@]@
                &&& final(self).forward() == old(self).forward()
                &&& final(self).backward() == old(self).backward()
            },
            forall|u: Seq<char>|
                u != url@ && #[trigger] old(self).forward().contains_key(u) && old(self).forward()[
                    u
                ]@ != x@ ==> final(self).forward().contains_key(u) && final(self).forward()[u]
                    == old(self).forward()[u],
            forall|u: Seq<char>| #[trigger]
                final(self).forward().contains_key(u) ==> u == url@ || old(
                    self,
                ).forward().contains_key(u),
    {
        match self.url_to_id.get(url) {
            Some(existing) => {
                let x = existing.clone();
                proof {
                    assert(self.backward().contains_key(self.forward()[url@]@));
                }
                x
            },
            None => {
                let x = random_uuid();
                match self.id_to_url.get(x.as_str()) {
                    Some(displaced) => {
                        let displaced = displaced.clone();
                        self.url_to_id.remove(displaced.as_str());
                        self.id_to_url.insert(x.clone(), url.to_owned());
                        self.url_to_id.insert(url.to_owned(), x.clone());
                        proof {
                            let pre = *old(self);
                            assert forall|u: Seq<char>| #[trigger]
                                self.forward().contains_key(u) implies self.backward().contains_key(
                                self.forward()[u]@,
                            ) && self.backward()[self.forward()[u]@]@ == u by {
                                if u != url@ {
                                    assert(pre.forward().contains_key(u));
                                    assert(pre.forward()[u]@ != x@);
                                }
                            }
                            assert forall|y: Seq<char>| #[trigger]
                                self.backward().contains_key(y) implies self.forward().contains_key(
                                self.backward()[y]@,
                            ) && self.forward()[self.backward()[y]@]@ == y by {
                                if y != x@ {
                                    assert(pre.backward().contains_key(y));
                                    assert(pre.backward()[y]@ != pre.backward()[x@]@);
                                }
                            }
                        }
                        x
                    },
                    None => {
                        self.id_to_url.insert(x.clone(), url.to_owned());
                        self.url_to_id.insert(url.to_owned(), x.clone());
                        proof {
                            let pre = *old(self);
                            assert forall|u: Seq<char>| #[trigger]
                                self.forward().contains_key(u) implies self.backward().contains_key(
                                self.forward()[u]@,
                            ) && self.backward()[self.forward()[u]@]@ == u by {
                                if u != url@ {
                                    assert(pre.forward().contains_key(u));
                                    assert(pre.forward()[u]@ != x@);
                                }
                            }
                            assert forall|y: Seq<char>| #[trigger]
                                self.backward().contains_key(y) implies self.forward().contains_key(
                                self.backward()[y]@,
                            ) && self.forward()[self.backward()[y]@]@ == y by {
                                if y != x@ {
                                    assert(pre.backward().contains_key(y));
                                }
                            }
                        }
                        x
                    },
                }
            },
        }
    }
}

/// The media round trip: a stored pair can be read back in both directions.
pub proof fn lemma_media_round_trip(m: MediaCache, url: Seq<char>, media_id: Seq<char>)
    requires
        m.wf(),
        m.forward().contains_key(url),
        m.forward()[url]@ == media_id,
    ensures
        m.backward().contains_key(media_id),
        m.backward()[media_id]@ == url,
{
}

} // verus!
