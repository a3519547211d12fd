//! Core logic of an ActivityPub relay: error taxonomy, circuit breakers,
//! actor and follower bookkeeping, node/media caches, inbound activity
//! dispatch, and the durable delivery job system.
pub mod actor;
pub mod admin;
pub mod breaker;
pub mod crypto;
pub mod deliver;
pub mod error;
pub mod ids;
pub mod inbound;
pub mod instance;
pub mod iri;
pub mod jobs;
pub mod last_online;
pub mod media;
pub mod node;
pub mod requests;
pub mod sig_header;
pub mod storage;
pub mod strvec;
pub mod stream;
