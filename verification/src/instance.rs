//! Refreshing a connected server's instance metadata: decide whether a
//! refresh is due, name the endpoint to fetch, and take the fetched document
//! in — its description HTML-sanitized, its contact avatar rehosted through
//! the media cache and prefetched by a job.
use vstd::prelude::*;

use crate::error::ErrorKind;
use crate::iri::{authority_of, authority_seq, scheme_of, scheme_seq, spec_authority_of, spec_scheme_of};
use crate::jobs::{JobKind, JobQueue};
use crate::media::MediaCache;
use crate::node::NodeCache;

verus! {

/// What ammonia's default cleaner leaves of an HTML fragment: tags and
/// attributes outside a conservative allow-list are stripped.
pub uninterp spec fn clean_html(s: Seq<char>) -> Seq<char>;

/// Relies on ammonia::clean: sanitize an HTML fragment with the default
/// conservative allow-list. The result depends on the fragment alone.
#[verifier::external_body]
fn sanitize_html(s: &str) -> (r: String)
    ensures
        r@ == clean_html(s@),
{
    ammonia::clean(s)
}

/// An instance document as fetched, reduced to plain fields.
pub struct InstanceDoc {
    pub title: String,
    pub short_description: Option<String>,
    pub description: String,
    pub version: String,
    pub registrations: bool,
    pub approval_required: bool,
    pub contact: Option<ContactDoc>,
}

/// The contact account embedded in an instance document.
pub struct ContactDoc {
    pub username: String,
    pub display_name: String,
    pub url: String,
    pub avatar: String,
}

/// A document that does not say whether approval is required does not
/// require it.
pub fn default_approval() -> (r: bool)
    ensures
        r == false,
{
    false
}

/// The description worth keeping: the long one, or the short one when the
/// long one is empty, or nothing.
pub open spec fn spec_description_of(doc: InstanceDoc) -> Seq<char> {
    if doc.description@.len() == 0 {
        match doc.short_description {
            Some(s) => s@,
            None => Seq::empty(),
        }
    } else {
        doc.description@
    }
}

/// The instance endpoint of the server an actor lives on.
pub fn instance_endpoint(actor_id: &str) -> (r: Result<String, ErrorKind>)
    ensures
        r matches Ok(u) ==> {
            &&& spec_scheme_of(actor_id@) is Some
            &&& spec_authority_of(actor_id@) is Some
            &&& u@ == scheme_seq(actor_id@) + "://"@ + authority_seq(actor_id@)
                + "/api/v1/instance"@
        },
        r is Err ==> (spec_scheme_of(actor_id@) is None || spec_authority_of(actor_id@) is None)
            && r == Err::<String, ErrorKind>(ErrorKind::MissingDomain),
{
    let scheme = scheme_of(actor_id);
    let authority = authority_of(actor_id);
    match (scheme, authority) {
        (Some(s), Some(a)) => Ok(s.concat("://").concat(a.as_str()).concat("/api/v1/instance")),
        _ => Err(ErrorKind::MissingDomain),
    }
}

/// Whether the instance refresh for `actor_id` should run at all: it is
/// skipped while both the contact and the instance tuples are fresh.
pub fn instance_refresh_due(nodes: &NodeCache, actor_id: &str, now: u64) -> (r: bool)
    ensures
        r == !(nodes.contacts().contains_key(actor_id@) && !crate::node::spec_outdated(
            nodes.contacts()[actor_id@].updated,
            now,
        ) && nodes.instances().contains_key(actor_id@) && !crate::node::spec_outdated(
            nodes.instances()[actor_id@].updated,
            now,
        )),
{
    let contact_outdated = nodes.is_contact_outdated(actor_id, now);
    let instance_outdated = nodes.is_instance_outdated(actor_id, now);
    contact_outdated || instance_outdated
}

/// Take a fetched instance document in: persist the sanitized description
/// and, when a contact is given, rehost its avatar under the relay's media
/// path and queue a prefetch of the bytes.
pub fn apply_instance(
    nodes: &mut NodeCache,
    media: &mut MediaCache,
    queue: &mut JobQueue,
    actor_id: &str,
    doc: InstanceDoc,
    media_base: &str,
    now: u64,
) -> (media_id: Option<String>)
    requires
        old(media).wf(),
        old(queue).wf(),
        old(queue).next_id() < u64::MAX,
    ensures
        final(media).wf(),
        final(queue).wf(),
        final(queue).next_id() <= old(queue).next_id() + 1,
        final(nodes).instances() == old(nodes).instances().insert(
            actor_id@,
            crate::node::Instance {
                title: doc.title,
                description: final(nodes).instances()[actor_id@].description,
                version: doc.version,
                reg: doc.registrations,
                requires_approval: doc.approval_required,
                updated: now,
            },
        ),
        final(nodes).instances()[actor_id@].description@ == clean_html(spec_description_of(doc)),
        final(nodes).infos() == old(nodes).infos(),
        doc.contact is None ==> {
            &&& media_id is None
            &&& *final(media) == *old(media)
            &&& *final(queue) == *old(queue)
            &&& final(nodes).contacts() == old(nodes).contacts()
        },
        doc.contact matches Some(c) ==> (media_id matches Some(x) && {
            &&& final(media).forward().contains_key(c.avatar@) && final(media).forward()[
                c.avatar@
            ]@ == x@
            &&& final(media).backward().contains_key(x@) && final(media).backward()[x@]@
                == c.avatar@
            &&& final(queue).jobs().len() == old(queue).jobs().len() + 1
            &&& forall|i: int|
                0 <= i < old(queue).jobs().len() ==> final(queue).jobs()[i] == old(queue).jobs()[i]
            &&& (final(queue).jobs().last().kind matches JobKind::CacheMedia { media_id: m } && m@
                == x@)
            &&& final(nodes).contacts().contains_key(actor_id@)
            &&& {
                let saved = final(nodes).contacts()[actor_id@];
                &&& saved.username == c.username
                &&& saved.display_name == c.display_name
                &&& saved.url == c.url
                &&& saved.avatar@ == media_base@ + x@
                &&& saved.updated == now
            }
        }),
{
    let description = if description_is_empty(&doc.description) {
        match doc.short_description {
            Some(s) => s,
            None => String::new(),
        }
    } else {
        doc.description
    };
    let media_id = match doc.contact {
        Some(c) => {
            let x = media.store_url(c.avatar.as_str());
            queue.enqueue(JobKind::CacheMedia { media_id: x.clone() }, now);
            let avatar = String::from_str(media_base).concat(x.as_str());
            nodes.set_contact(actor_id, c.username, c.display_name, c.url, avatar, now);
            Some(x)
        },
        None => None,
    };
    let cleaned = sanitize_html(description.as_str());
    nodes.set_instance(
        actor_id,
        doc.title,
        cleaned,
        doc.version,
        doc.registrations,
        doc.approval_required,
        now,
    );
    media_id
}

/// Whether a description has no characters at all.
fn description_is_empty(s: &String) -> (r: bool)
    ensures
        r == (s@.len() == 0),
{
    s.as_str().unicode_len() == 0
}

} // verus!
