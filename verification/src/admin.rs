//! Admin authentication: the API token arrives in an `X-Api-Token` header
//! and is compared against a bcrypt hash of the configured token.
use vstd::prelude::*;

verus! {

/// The bcrypt cost the relay hashes its API token with.
pub const TOKEN_HASH_COST: u32 = 12;

/// Whether bcrypt accepts `password` against the bcrypt hash `hash`: a pure
/// function of the two.
pub uninterp spec fn bcrypt_matches(password: Seq<char>, hash: Seq<char>) -> bool;

/// Whether `hash` is a well-formed bcrypt hash, one that bcrypt::verify can
/// check passwords against without erring. Everything bcrypt::hash produces
/// is well formed.
pub uninterp spec fn bcrypt_hash_ok(hash: Seq<char>) -> bool;

/// Relies on bcrypt::hash: a fresh, well-formed hash of the password under
/// the given cost, which bcrypt::verify then accepts for the same password.
/// The salt is random, so nothing more is promised about the hash itself.
#[verifier::external_body]
fn bcrypt_hash(password: &str, cost: u32) -> (r: Result<String, String>)
    ensures
        r matches Ok(h) ==> bcrypt_matches(password@, h@) && bcrypt_hash_ok(h@),
{
    bcrypt::hash(password, cost).map_err(|e| e.to_string())
}

/// Relies on bcrypt::verify: whether the password matches the hash; an error
/// comes only of a malformed hash, never of a well-formed one.
#[verifier::external_body]
fn bcrypt_check(password: &str, hash: &str) -> (r: Result<bool, String>)
    ensures
        r matches Ok(b) ==> b == bcrypt_matches(password@, hash@),
        bcrypt_hash_ok(hash@) ==> r is Ok,
{
    bcrypt::verify(password, hash).map_err(|e| e.to_string())
}

/// Why admin authentication failed.
#[derive(Clone, Debug, PartialEq, Eq)]
pub enum AdminError {
    /// The presented token does not match.
    Invalid,
    /// The configured token could not be hashed.
    BCryptHash(String),
    /// The stored hash could not be checked.
    BCryptVerify(String),
}

/// The value of an `X-Api-Token` header.
pub struct XApiToken {
    token: String,
}

impl XApiToken {
    pub closed spec fn view(self) -> Seq<char> {
        self.token@
    }

    pub fn new(token: String) -> (r: Self)
        ensures
            r@ == token@,
    {
        XApiToken { token }
    }

    /// The token text, for sending the header out.
    pub fn as_str(&self) -> (r: &str)
        ensures
            r@ == self@,
    {
        self.token.as_str()
    }
}

/// The hashed admin token the server holds.
pub struct AdminConfig {
    hashed_api_token: String,
}

impl AdminConfig {
    pub closed spec fn hashed(self) -> Seq<char> {
        self.hashed_api_token@
    }

    /// The stored hash is one bcrypt produced, so checks against it never
    /// err. `build` establishes this.
    pub open spec fn wf(self) -> bool {
        bcrypt_hash_ok(self.hashed())
    }

    /// Hash the configured token. The hash accepts exactly what bcrypt
    /// accepts for that token.
    pub fn build(api_token: &str) -> (r: Result<Self, AdminError>)
        ensures
            r matches Ok(c) ==> bcrypt_matches(api_token@, c.hashed()) && c.wf(),
            r matches Err(e) ==> e is BCryptHash,
    {
        match bcrypt_hash(api_token, TOKEN_HASH_COST) {
            Ok(h) => Ok(AdminConfig { hashed_api_token: h }),
            Err(e) => Err(AdminError::BCryptHash(e)),
        }
    }

    /// Check a presented token against the stored hash. On a well-formed
    /// hash — every hash `build` stores is one — the answer is owed.
    pub fn verify(&self, token: &XApiToken) -> (r: Result<bool, AdminError>)
        ensures
            r matches Ok(b) ==> b == bcrypt_matches(token@, self.hashed()),
            r matches Err(e) ==> e is BCryptVerify,
            self.wf() ==> r is Ok,
    {
        match bcrypt_check(token.as_str(), self.hashed_api_token.as_str()) {
            Ok(b) => Ok(b),
            Err(e) => Err(AdminError::BCryptVerify(e)),
        }
    }

    /// Admit or refuse an admin request by its token: on a well-formed hash,
    /// exactly the matching tokens are admitted.
    pub fn authenticate(&self, token: &XApiToken) -> (r: Result<(), AdminError>)
        ensures
            r is Ok ==> bcrypt_matches(token@, self.hashed()),
            r matches Err(e) ==> e is Invalid || e is BCryptVerify,
            r == Err::<(), AdminError>(AdminError::Invalid) ==> !bcrypt_matches(
                token@,
                self.hashed(),
            ),
            self.wf() ==> (r is Ok <==> bcrypt_matches(token@, self.hashed())),
    {
        match self.verify(token) {
            Ok(true) => Ok(()),
            Ok(false) => Err(AdminError::Invalid),
            Err(e) => Err(e),
        }
    }
}

} // verus!
