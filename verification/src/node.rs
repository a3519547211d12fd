//! Per-actor node metadata: nodeinfo, instance description and contact, each
//! stamped with when it was written and outdated ten minutes later. The
//! accessors answer optimistically from what is stored; background jobs
//! refresh whatever reports itself outdated.
use vstd::prelude::*;
use vstd::hash_map::StringHashMap;

use crate::iri::{spec_authority_of, spec_scheme_of, authority_of, scheme_of};

verus! {

/// Seconds after which a stored tuple counts as outdated.
pub const OUTDATED_AFTER_SECONDS: u64 = 600;

/// Software name and version a server reports about itself.
pub struct Info {
    pub software: String,
    pub version: String,
    /// Whether the server has open registrations.
    pub reg: bool,
    /// When the tuple was written, in seconds.
    pub updated: u64,
}

/// Title and description a server reports about itself.
pub struct Instance {
    pub title: String,
    pub description: String,
    pub version: String,
    pub reg: bool,
    pub requires_approval: bool,
    /// When the tuple was written, in seconds.
    pub updated: u64,
}

/// The administrative contact a server reports.
pub struct Contact {
    pub username: String,
    pub display_name: String,
    pub url: String,
    pub avatar: String,
    /// When the tuple was written, in seconds.
    pub updated: u64,
}

/// A tuple written at `updated` is outdated at `now` when more than ten
/// minutes have passed.
pub open spec fn spec_outdated(updated: u64, now: u64) -> bool {
    updated + OUTDATED_AFTER_SECONDS < now
}

/// Outdatedness is monotone: a tuple outdated at one time is outdated at
/// every later time, and every tuple left unsaved is outdated once ten
/// minutes have passed.
pub proof fn lemma_outdated_monotone(updated: u64, early: u64, late: u64)
    requires
        early <= late,
    ensures
        spec_outdated(updated, early) ==> spec_outdated(updated, late),
        late > updated + OUTDATED_AFTER_SECONDS ==> spec_outdated(updated, late),
{
}

impl Info {
    pub fn outdated(&self, now: u64) -> (r: bool)
        ensures
            r == spec_outdated(self.updated, now),
    {
        self.updated < now && now - self.updated > OUTDATED_AFTER_SECONDS
    }

    /// An equal tuple built from fresh strings.
    pub fn duplicate(&self) -> (r: Info)
        ensures
            r == *self,
    {
        Info {
            software: self.software.clone(),
            version: self.version.clone(),
            reg: self.reg,
            updated: self.updated,
        }
    }
}

impl Instance {
    pub fn outdated(&self, now: u64) -> (r: bool)
        ensures
            r == spec_outdated(self.updated, now),
    {
        self.updated < now && now - self.updated > OUTDATED_AFTER_SECONDS
    }

    /// An equal tuple built from fresh strings.
    pub fn duplicate(&self) -> (r: Instance)
        ensures
            r == *self,
    {
        Instance {
            title: self.title.clone(),
            description: self.description.clone(),
            version: self.version.clone(),
            reg: self.reg,
            requires_approval: self.requires_approval,
            updated: self.updated,
        }
    }
}

impl Contact {
    pub fn outdated(&self, now: u64) -> (r: bool)
        ensures
            r == spec_outdated(self.updated, now),
    {
        self.updated < now && now - self.updated > OUTDATED_AFTER_SECONDS
    }

    /// An equal tuple built from fresh strings.
    pub fn duplicate(&self) -> (r: Contact)
        ensures
            r == *self,
    {
        Contact {
            username: self.username.clone(),
            display_name: self.display_name.clone(),
            url: self.url.clone(),
            avatar: self.avatar.clone(),
            updated: self.updated,
        }
    }
}

/// What one connected server looks like to the landing page: its base IRI
/// and whatever metadata has been gathered.
pub struct Node {
    pub base: String,
    pub info: Option<Info>,
    pub instance: Option<Instance>,
    pub contact: Option<Contact>,
}

/// The base form of an actor IRI: scheme and authority with the empty path,
/// which renders with a trailing slash. An IRI whose components cannot be
/// read is kept whole.
pub open spec fn spec_base_of(s: Seq<char>) -> Seq<char> {
    match (spec_scheme_of(s), spec_authority_of(s)) {
        (Some(scheme), Some(authority)) => scheme + "://"@ + authority + "/"@,
        _ => s,
    }
}

/// Reduce an actor IRI to its base: scheme and authority, path cleared.
pub fn base_of(id: &str) -> (r: String)
    ensures
        r@ == spec_base_of(id@),
{
    let scheme = scheme_of(id);
    let authority = authority_of(id);
    match (scheme, authority) {
        (Some(s), Some(a)) => s.concat("://").concat(a.as_str()).concat("/"),
        _ => id.to_owned(),
    }
}

/// The node metadata store, keyed by actor id.
pub struct NodeCache {
    info: StringHashMap<Info>,
    instance: StringHashMap<Instance>,
    contact: StringHashMap<Contact>,
}

impl NodeCache {
    pub closed spec fn infos(self) -> Map<Seq<char>, Info> {
        self.info@
    }

    pub closed spec fn instances(self) -> Map<Seq<char>, Instance> {
        self.instance@
    }

    pub closed spec fn contacts(self) -> Map<Seq<char>, Contact> {
        self.contact@
    }

    /// An empty store.
    pub fn new() -> (r: Self)
        ensures
            r.infos() == Map::<Seq<char>, Info>::empty(),
            r.instances() == Map::<Seq<char>, Instance>::empty(),
            r.contacts() == Map::<Seq<char>, Contact>::empty(),
    {
        NodeCache {
            info: StringHashMap::new(),
            instance: StringHashMap::new(),
            contact: StringHashMap::new(),
        }
    }

    /// Save the nodeinfo tuple for `actor_id`, stamped `now`.
    pub fn set_info(
        &mut self,
        actor_id: &str,
        software: String,
        version: String,
        reg: bool,
        now: u64,
    )
        ensures
            final(self).infos() == old(self).infos().insert(
                actor_id@,
                Info { software, version, reg, updated: now },
            ),
            final(self).instances() == old(self).instances(),
            final(self).contacts() == old(self).contacts(),
    {
        self.info.insert(actor_id.to_owned(), Info { software, version, reg, updated: now });
    }

    /// Save the instance tuple for `actor_id`, stamped `now`.
    pub fn set_instance(
        &mut self,
        actor_id: &str,
        title: String,
        description: String,
        version: String,
        reg: bool,
        requires_approval: bool,
        now: u64,
    )
        ensures
            final(self).instances() == old(self).instances().insert(
                actor_id@,
                Instance { title, description, version, reg, requires_approval, updated: now },
            ),
            final(self).infos() == old(self).infos(),
            final(self).contacts() == old(self).contacts(),
    {
        self.instance.insert(
            actor_id.to_owned(),
            Instance { title, description, version, reg, requires_approval, updated: now },
        );
    }

    /// Save the contact tuple for `actor_id`, stamped `now`.
    pub fn set_contact(
        &mut self,
        actor_id: &str,
        username: String,
        display_name: String,
        url: String,
        avatar: String,
        now: u64,
    )
        ensures
            final(self).contacts() == old(self).contacts().insert(
                actor_id@,
                Contact { username, display_name, url, avatar, updated: now },
            ),
            final(self).infos() == old(self).infos(),
            final(self).instances() == old(self).instances(),
    {
        self.contact.insert(
            actor_id.to_owned(),
            Contact { username, display_name, url, avatar, updated: now },
        );
    }

    /// Whether the nodeinfo for `actor_id` needs a refresh: missing or older
    /// than ten minutes.
    pub fn is_nodeinfo_outdated(&self, actor_id: &str, now: u64) -> (r: bool)
        ensures
            r == (!self.infos().contains_key(actor_id@) || spec_outdated(
                self.infos()[actor_id@].updated,
                now,
            )),
    {
        match self.info.get(actor_id) {
            Some(info) => info.outdated(now),
            None => true,
        }
    }

    /// Whether the instance tuple for `actor_id` needs a refresh.
    pub fn is_instance_outdated(&self, actor_id: &str, now: u64) -> (r: bool)
        ensures
            r == (!self.instances().contains_key(actor_id@) || spec_outdated(
                self.instances()[actor_id@].updated,
                now,
            )),
    {
        match self.instance.get(actor_id) {
            Some(instance) => instance.outdated(now),
            None => true,
        }
    }

    /// Whether the contact tuple for `actor_id` needs a refresh.
    pub fn is_contact_outdated(&self, actor_id: &str, now: u64) -> (r: bool)
        ensures
            r == (!self.contacts().contains_key(actor_id@) || spec_outdated(
                self.contacts()[actor_id@].updated,
                now,
            )),
    {
        match self.contact.get(actor_id) {
            Some(contact) => contact.outdated(now),
            None => true,
        }
    }

    /// One gathered node per connected actor id, in order: the base IRI with
    /// whatever tuples are stored for that actor.
    pub fn nodes(&self, connected: &Vec<String>) -> (r: Vec<Node>)
        ensures
            r@.len() == connected@.len(),
            forall|i: int|
                0 <= i < r@.len() ==> {
                    let id = #[trigger] connected@[i]@;
                    let n = r@[i];
                    &&& n.base@ == spec_base_of(id)
                    &&& (n.info matches Some(v) ==> self.infos().contains_key(id)
                        && v == self.infos()[id])
                    &&& (n.info is None ==> !self.infos().contains_key(id))
                    &&& (n.instance matches Some(v) ==> self.instances().contains_key(id)
                        && v == self.instances()[id])
                    &&& (n.instance is None ==> !self.instances().contains_key(id))
                    &&& (n.contact matches Some(v) ==> self.contacts().contains_key(id)
                        && v == self.contacts()[id])
                    &&& (n.contact is None ==> !self.contacts().contains_key(id))
                },
    {
        let mut out: Vec<Node> = Vec::new();
        let mut i: usize = 0;
        while i < connected.len()
            invariant
                0 <= i <= connected@.len(),
                out@.len() == i,
                forall|p: int|
                    0 <= p < i ==> {
                        let id = #[trigger] connected@[p]@;
                        let n = out@[p];
                        &&& n.base@ == spec_base_of(id)
                        &&& (n.info matches Some(v) ==> self.infos().contains_key(id)
                            && v == self.infos()[id])
                        &&& (n.info is None ==> !self.infos().contains_key(id))
                        &&& (n.instance matches Some(v) ==> self.instances().contains_key(id)
                            && v == self.instances()[id])
                        &&& (n.instance is None ==> !self.instances().contains_key(id))
                        &&& (n.contact matches Some(v) ==> self.contacts().contains_key(id)
                            && v == self.contacts()[id])
                        &&& (n.contact is None ==> !self.contacts().contains_key(id))
                    },
            decreases connected@.len() - i,
        {
            let id = &connected[i];
            let base = base_of(id.as_str());
            let info = match self.info.get(id.as_str()) {
                Some(v) => Some(v.duplicate()),
                None => None,
            };
            let instance = match self.instance.get(id.as_str()) {
                Some(v) => Some(v.duplicate()),
                None => None,
            };
            let contact = match self.contact.get(id.as_str()) {
                Some(v) => Some(v.duplicate()),
                None => None,
            };
            out.push(Node { base, info, instance, contact });
            i = i + 1;
        }
        out
    }
}

} // verus!
