//! Node metadata, media cache and instance refresh.
use relay::instance::{apply_instance, instance_endpoint, instance_refresh_due, ContactDoc, InstanceDoc};
use relay::jobs::{JobKind, JobQueue, Queue};
use relay::media::MediaCache;
use relay::node::NodeCache;

#[test]
fn media_round_trip() {
    let mut media = MediaCache::new();
    let x = media.store_url("https://a.example/avatar.png");
    assert_eq!(media.get_url(&x), Some("https://a.example/avatar.png".to_string()));
    assert_eq!(media.get_uuid("https://a.example/avatar.png"), Some(x.clone()));
    // storing the same URL again answers the same id
    assert_eq!(media.store_url("https://a.example/avatar.png"), x);
    // an unknown id or URL is a miss
    assert_eq!(media.get_url("not-an-id"), None);
    assert_eq!(media.get_uuid("https://b.example/avatar.png"), None);
    // a second URL gets a different id
    let y = media.store_url("https://b.example/avatar.png");
    assert_ne!(x, y);
    assert_eq!(media.get_url(&y), Some("https://b.example/avatar.png".to_string()));
}

#[test]
fn outdated_is_monotone() {
    let mut nodes = NodeCache::new();
    nodes.set_info("https://a.example/u/1", "software".to_string(), "1.0".to_string(), true, 1000);
    // fresh right after the save, and at the ten-minute boundary
    assert!(!nodes.is_nodeinfo_outdated("https://a.example/u/1", 1000));
    assert!(!nodes.is_nodeinfo_outdated("https://a.example/u/1", 1600));
    // outdated one second past the boundary, and forever after
    assert!(nodes.is_nodeinfo_outdated("https://a.example/u/1", 1601));
    assert!(nodes.is_nodeinfo_outdated("https://a.example/u/1", 99999));
    // a save resets the clock
    nodes.set_info("https://a.example/u/1", "software".to_string(), "1.1".to_string(), true, 2000);
    assert!(!nodes.is_nodeinfo_outdated("https://a.example/u/1", 2100));
    // nothing stored means outdated
    assert!(nodes.is_nodeinfo_outdated("https://b.example/u/1", 0));
    assert!(nodes.is_instance_outdated("https://b.example/u/1", 0));
    assert!(nodes.is_contact_outdated("https://b.example/u/1", 0));
}

#[test]
fn nodes_lists_connected_servers() {
    let mut nodes = NodeCache::new();
    nodes.set_info("https://a.example/u/1", "sw".to_string(), "1".to_string(), false, 10);
    let connected = vec![
        "https://a.example/u/1".to_string(),
        "https://b.example/u/2".to_string(),
    ];
    let listing = nodes.nodes(&connected);
    assert_eq!(listing.len(), 2);
    assert_eq!(listing[0].base, "https://a.example/");
    assert!(listing[0].info.is_some());
    assert!(listing[0].instance.is_none());
    assert_eq!(listing[1].base, "https://b.example/");
    assert!(listing[1].info.is_none());
}

#[test]
fn instance_endpoint_is_built_from_the_actor() {
    assert_eq!(
        instance_endpoint("https://a.example/u/1").expect("well-formed"),
        "https://a.example/api/v1/instance"
    );
    assert!(instance_endpoint("garbage").is_err());
}

#[test]
fn instance_refresh_sanitizes_and_rehosts() {
    let mut nodes = NodeCache::new();
    let mut media = MediaCache::new();
    let mut queue = JobQueue::new();
    assert!(instance_refresh_due(&nodes, "https://a.example/u/1", 50));
    let doc = InstanceDoc {
        title: "A".to_string(),
        short_description: Some("short".to_string()),
        description: "<script>alert(1)</script>hello <b>world</b>".to_string(),
        version: "4.0".to_string(),
        registrations: true,
        approval_required: false,
        contact: Some(ContactDoc {
            username: "admin".to_string(),
            display_name: "Admin".to_string(),
            url: "https://a.example/@admin".to_string(),
            avatar: "https://a.example/avatar.png".to_string(),
        }),
    };
    let media_id = apply_instance(
        &mut nodes,
        &mut media,
        &mut queue,
        "https://a.example/u/1",
        doc,
        "https://relay.test/media/",
        50,
    )
    .expect("contact given");
    // the avatar is rehosted under the relay's media path
    assert_eq!(
        media.get_url(&media_id),
        Some("https://a.example/avatar.png".to_string())
    );
    // a prefetch of the bytes is queued
    let id = queue.claim(Queue::Deliver, 50, 30).expect("cache job");
    match queue.get_kind(id).unwrap() {
        JobKind::CacheMedia { media_id: m } => assert_eq!(m, &media_id),
        _ => panic!("expected a CacheMedia job"),
    }
    // the description was sanitized: the script is gone, the markup kept
    let listing = nodes.nodes(&vec!["https://a.example/u/1".to_string()]);
    let instance = listing[0].instance.as_ref().expect("saved");
    assert_eq!(instance.description, "hello <b>world</b>");
    assert_eq!(instance.title, "A");
    let contact = listing[0].contact.as_ref().expect("saved");
    assert!(contact.avatar.starts_with("https://relay.test/media/"));
    // both tuples fresh: no refresh due
    assert!(!instance_refresh_due(&nodes, "https://a.example/u/1", 60));
}

#[test]
fn empty_description_falls_back_to_the_short_one() {
    let mut nodes = NodeCache::new();
    let mut media = MediaCache::new();
    let mut queue = JobQueue::new();
    let doc = InstanceDoc {
        title: "B".to_string(),
        short_description: Some("the short text".to_string()),
        description: String::new(),
        version: "1".to_string(),
        registrations: false,
        approval_required: relay::instance::default_approval(),
        contact: None,
    };
    let media_id = apply_instance(
        &mut nodes,
        &mut media,
        &mut queue,
        "https://b.example/u/1",
        doc,
        "https://relay.test/media/",
        70,
    );
    assert!(media_id.is_none());
    let listing = nodes.nodes(&vec!["https://b.example/u/1".to_string()]);
    assert_eq!(
        listing[0].instance.as_ref().expect("saved").description,
        "the short text"
    );
}

#[test]
fn listeners_job_fans_out_refreshes() {
    let mut queue = JobQueue::new();
    let connected = vec!["https://a.example/u/1".to_string()];
    relay::deliver::perform_listeners(&mut queue, &connected, 5);
    let first = queue.claim(Queue::Apub, 5, 30).expect("instance refresh");
    assert!(matches!(
        queue.get_kind(first).unwrap(),
        JobKind::QueryInstance { .. }
    ));
    let second = queue.claim(Queue::Apub, 5, 30).expect("nodeinfo refresh");
    assert!(matches!(
        queue.get_kind(second).unwrap(),
        JobKind::QueryNodeinfo { .. }
    ));
    assert!(queue.claim(Queue::Apub, 5, 30).is_none());
}
