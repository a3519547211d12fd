//! Fresh identifiers for listeners and media entries.
use vstd::prelude::*;

verus! {

/// Relies on uuid::Uuid::new_v4: a freshly drawn random UUID, rendered in
/// hyphenated form. The value is random, so nothing is promised about it;
/// callers guard against collisions themselves.
#[verifier::external_body]
pub fn random_uuid() -> (r: String) {
    uuid::Uuid::new_v4().hyphenated().to_string()
}

} // verus!
