//! HTTP-signature material: the canonical signing string over the request's
//! pseudo-headers, the digest header value, RSA signature verification, and
//! the sizing of the CPU-bound signing pool.
use vstd::prelude::*;

verus! {

/// When more threads than this are configured, a share of them verifies
/// instead of signing.
pub const VERIFY_RATIO: usize = 7;

/// How many threads sign and how many verify, out of the configured count:
/// small pools keep one verifier beside all signers; larger ones give
/// verification a seventh, and signing at least seven.
pub open spec fn spec_thread_split(configured: usize) -> (usize, usize) {
    if configured <= 1 {
        (1usize, 1usize)
    } else if configured <= VERIFY_RATIO {
        (configured, 1usize)
    } else {
        let verify = if configured / VERIFY_RATIO >= 1 {
            configured / VERIFY_RATIO
        } else {
            1usize
        };
        let sign = if configured - verify >= VERIFY_RATIO {
            (configured - verify) as usize
        } else {
            VERIFY_RATIO
        };
        (sign, verify)
    }
}

/// Split the configured signature thread count into signing and verifying
/// pools.
pub fn signature_thread_split(configured: usize) -> (r: (usize, usize))
    ensures
        r == spec_thread_split(configured),
        r.0 >= 1 && r.1 >= 1,
{
    if configured <= 1 {
        (1, 1)
    } else if configured <= VERIFY_RATIO {
        (configured, 1)
    } else {
        let verify = if configured / VERIFY_RATIO >= 1 {
            configured / VERIFY_RATIO
        } else {
            1
        };
        let sign = if configured - verify >= VERIFY_RATIO {
            configured - verify
        } else {
            VERIFY_RATIO
        };
        (sign, verify)
    }
}

/// The SHA-256 digest of a byte string.
pub uninterp spec fn sha256_of(data: Seq<u8>) -> Seq<u8>;

/// Relies on sha2's Sha256 (via Digest::digest): the 32-byte SHA-256 of the
/// input, a function of the input alone.
#[verifier::external_body]
pub fn sha256(data: &Vec<u8>) -> (r: Vec<u8>)
    ensures
        r@ == sha256_of(data@),
        r@.len() == 32,
{
    let mut out: Vec<u8> = Vec::with_capacity(32);
    out.extend_from_slice(&<rsa::sha2::Sha256 as rsa::sha2::Digest>::digest(data.as_slice()));
    out
}

/// The standard base64 encoding of a byte string.
pub uninterp spec fn base64_of(data: Seq<u8>) -> Seq<char>;

/// Relies on base64's standard-alphabet engine: the padded base64 text of
/// the input, a function of the input alone.
#[verifier::external_body]
pub fn base64_encode(data: &Vec<u8>) -> (r: String)
    ensures
        r@ == base64_of(data@),
{
    base64::Engine::encode(&base64::engine::general_purpose::STANDARD, data.as_slice())
}

/// What base64 decoding yields for a text, when it decodes at all.
pub uninterp spec fn base64_decoded(s: Seq<char>) -> Option<Seq<u8>>;

/// Relies on base64's standard-alphabet engine: decode a base64 text; the
/// outcome is a function of the text alone.
#[verifier::external_body]
pub fn base64_decode(s: &str) -> (r: Option<Vec<u8>>)
    ensures
        match r {
            Some(b) => base64_decoded(s@) == Some(b@),
            None => base64_decoded(s@) is None,
        },
{
    base64::Engine::decode(&base64::engine::general_purpose::STANDARD, s).ok()
}

/// Whether the RSA PKCS#1 v1.5 SHA-256 signature `sig` verifies for
/// `message` under the PEM-encoded public key `key_pem`: a function of the
/// three. A key or signature that does not even parse verifies nothing.
pub uninterp spec fn rsa_verifies(key_pem: Seq<char>, message: Seq<u8>, sig: Seq<u8>) -> bool;

/// Relies on rsa::pkcs1v15::VerifyingKey::<Sha256>::verify, with the key
/// decoded by rsa::RsaPublicKey::from_public_key_pem and the signature by
/// rsa::pkcs1v15::Signature::try_from.
#[verifier::external_body]
pub fn rsa_verify(key_pem: &str, message: &Vec<u8>, sig: &Vec<u8>) -> (r: bool)
    ensures
        r == rsa_verifies(key_pem@, message@, sig@),
{
    let key = match <rsa::RsaPublicKey as rsa::pkcs8::DecodePublicKey>::from_public_key_pem(
        key_pem,
    ) {
        Ok(k) => k,
        Err(_) => return false,
    };
    let verifying_key = rsa::pkcs1v15::VerifyingKey::<rsa::sha2::Sha256>::new(key);
    let signature = match rsa::pkcs1v15::Signature::try_from(sig.as_slice()) {
        Ok(s) => s,
        Err(_) => return false,
    };
    rsa::signature::Verifier::verify(&verifying_key, message.as_slice(), &signature).is_ok()
}

/// Verify a request signature against an actor's published key.
pub fn verify_for_actor(actor: &crate::storage::Actor, message: &Vec<u8>, sig: &Vec<u8>) -> (r:
    bool)
    ensures
        r == rsa_verifies(actor.public_key@, message@, sig@),
{
    rsa_verify(actor.public_key.as_str(), message, sig)
}

/// The canonical signing string of a request, over the headers
/// `(request-target) host date digest content-type`, with the digest already
/// rendered (`SHA-256=` and base64).
pub fn signing_string(
    method: &str,
    path: &str,
    host: &str,
    date: &str,
    digest: &str,
    content_type: &str,
) -> (r: String)
    ensures
        r@ == "(request-target): "@ + method@ + " "@ + path@ + "\nhost: "@ + host@ + "\ndate: "@
            + date@ + "\ndigest: SHA-256="@ + digest@ + "\ncontent-type: "@ + content_type@,
{
    String::from_str("(request-target): ").concat(method).concat(" ").concat(path).concat(
        "\nhost: ",
    ).concat(host).concat("\ndate: ").concat(date).concat("\ndigest: SHA-256=").concat(
        digest,
    ).concat("\ncontent-type: ").concat(content_type)
}

/// The digest header value of a request body.
pub fn digest_value(body: &Vec<u8>) -> (r: String)
    ensures
        r@ == base64_of(sha256_of(body@)),
{
    let hash = sha256(body);
    base64_encode(&hash)
}

} // verus!
