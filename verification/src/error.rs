//! Error taxonomy of the relay core: every failure carries a tagged kind,
//! and each kind has two projections — the HTTP status used when the error
//! is surfaced as a response, and the retry classification used when a
//! delivery job fails.
use vstd::prelude::*;

verus! {

/// The tagged error kinds of the relay core.
#[derive(Clone, Debug, PartialEq, Eq)]
pub enum ErrorKind {
    /// The named actor (or its server) is not subscribed to the relay.
    NotSubscribed(String),
    /// The actor's authority is rejected by the allow/block policy.
    NotAllowed(String),
    /// An activity asked the relay to act for a foreign actor (expected, actual).
    WrongActor(String, String),
    /// A signing actor submitted a payload claiming another actor (claimed, payload actor).
    BadActor(String, String),
    /// Signature verification is required but no signature was supplied.
    NoSignature,
    /// The activity's `type` is one the relay does not handle.
    Kind(String),
    /// The activity has no `type` field.
    MissingKind,
    /// The activity has no `id` field.
    MissingId,
    /// An IRI was expected to carry an authority and did not.
    MissingDomain,
    /// A payload's id names a different host than the IRI it was fetched from.
    HostMismatch,
    /// A single object was expected, an array was found.
    ObjectCount,
    /// The activity's object has already been relayed.
    Duplicate,
    /// The per-authority circuit breaker is open; no request was issued.
    Breaker,
    /// A response body exceeded the configured size limit.
    BodyTooLarge,
    /// A response from the named authority had an unacceptable status code.
    Status(String, u16),
    /// The request to the named authority could not be sent (authority, detail).
    SendRequest(String, String),
    /// The response from the named authority could not be read (authority, detail).
    ReceiveResponse(String, String),
    /// Signing a digest failed.
    Signature,
    /// A presented signature did not verify.
    VerifySignature,
    /// A blocking operation was canceled.
    Canceled,
    /// The configuration is unusable.
    Config,
    /// The storage layer failed.
    Storage(String),
    /// A JSON payload could not be decoded.
    Json(String),
}

/// What a job worker does with a failed delivery, decided by the error kind.
#[derive(Clone, Copy, Debug, PartialEq, Eq, Structural)]
pub enum Retry {
    /// Dead-letter the job: retrying cannot help.
    Drop,
    /// Reschedule with exponential backoff.
    Backoff,
    /// Retry immediately: the work itself never ran.
    Now,
}

impl ErrorKind {
    /// The HTTP status under which this kind is surfaced as a response.
    pub open spec fn spec_status_code(self) -> u16 {
        match self {
            ErrorKind::NotAllowed(_) | ErrorKind::WrongActor(_, _) | ErrorKind::BadActor(_, _) => 403,
            ErrorKind::NotSubscribed(_) => 401,
            ErrorKind::Duplicate => 202,
            ErrorKind::Kind(_)
            | ErrorKind::MissingKind
            | ErrorKind::MissingId
            | ErrorKind::ObjectCount
            | ErrorKind::NoSignature => 400,
            _ => 500,
        }
    }

    pub fn status_code(&self) -> (r: u16)
        ensures
            r == self.spec_status_code(),
    {
        match self {
            ErrorKind::NotAllowed(_) | ErrorKind::WrongActor(_, _) | ErrorKind::BadActor(_, _) => 403,
            ErrorKind::NotSubscribed(_) => 401,
            ErrorKind::Duplicate => 202,
            ErrorKind::Kind(_)
            | ErrorKind::MissingKind
            | ErrorKind::MissingId
            | ErrorKind::ObjectCount
            | ErrorKind::NoSignature => 400,
            _ => 500,
        }
    }

    /// The retry classification of this kind: breaker trips, rejected
    /// deliveries and most 4xx responses are dropped; transport failures,
    /// 5xx, 408 and 429 back off; a canceled operation never ran and is
    /// retried at once; everything else backs off.
    pub open spec fn spec_retry(self) -> Retry {
        match self {
            ErrorKind::Breaker | ErrorKind::NotAllowed(_) | ErrorKind::WrongActor(_, _) => Retry::Drop,
            ErrorKind::Status(_, code) => if 400 <= code < 500 && code != 408 && code != 429 {
                Retry::Drop
            } else {
                Retry::Backoff
            },
            ErrorKind::SendRequest(_, _) | ErrorKind::ReceiveResponse(_, _) => Retry::Backoff,
            ErrorKind::Canceled => Retry::Now,
            _ => Retry::Backoff,
        }
    }

    pub fn retry(&self) -> (r: Retry)
        ensures
            r == self.spec_retry(),
    {
        match self {
            ErrorKind::Breaker | ErrorKind::NotAllowed(_) | ErrorKind::WrongActor(_, _) => Retry::Drop,
            ErrorKind::Status(_, code) => {
                let c = *code;
                if 400 <= c && c < 500 && c != 408 && c != 429 {
                    Retry::Drop
                } else {
                    Retry::Backoff
                }
            },
            ErrorKind::SendRequest(_, _) | ErrorKind::ReceiveResponse(_, _) => Retry::Backoff,
            ErrorKind::Canceled => Retry::Now,
            _ => Retry::Backoff,
        }
    }

    pub fn is_breaker(&self) -> (r: bool)
        ensures
            r == (self matches ErrorKind::Breaker),
    {
        matches!(self, ErrorKind::Breaker)
    }

    pub fn is_not_found(&self) -> (r: bool)
        ensures
            r == (self matches ErrorKind::Status(_, 404u16)),
    {
        matches!(self, ErrorKind::Status(_, 404u16))
    }

    pub fn is_bad_request(&self) -> (r: bool)
        ensures
            r == (self matches ErrorKind::Status(_, 400u16)),
    {
        matches!(self, ErrorKind::Status(_, 400u16))
    }

    pub fn is_gone(&self) -> (r: bool)
        ensures
            r == (self matches ErrorKind::Status(_, 410u16)),
    {
        matches!(self, ErrorKind::Status(_, 410u16))
    }

    pub fn is_malformed_json(&self) -> (r: bool)
        ensures
            r == (self matches ErrorKind::Json(_)),
    {
        matches!(self, ErrorKind::Json(_))
    }

    /// The human-readable message of this kind, as it appears in the
    /// `{"error": ...}` body of a rejected request.
    pub open spec fn spec_message(self) -> Seq<char> {
        match self {
            ErrorKind::NotSubscribed(a) => "Actor ("@ + a@ + "), or Actor's server, is not subscribed"@,
            ErrorKind::NotAllowed(a) => "Actor is not allowed, "@ + a@,
            ErrorKind::WrongActor(_, actual) => "Cannot make decisions for foreign actor, "@
                + actual@,
            ErrorKind::BadActor(claimed, payload) => "Actor ("@ + claimed@
                + ") tried to submit another actor's ("@ + payload@ + ") payload"@,
            ErrorKind::NoSignature => "Signature verification is required, but no signature was given"@,
            ErrorKind::Kind(k) => "Wrong ActivityPub kind, "@ + k@,
            ErrorKind::MissingKind => "Input is missing a 'type' field"@,
            ErrorKind::MissingId => "Input is missing a 'id' field"@,
            ErrorKind::MissingDomain => "IRI is missing a domain"@,
            ErrorKind::HostMismatch => "Host mismatch"@,
            ErrorKind::ObjectCount => "Expected a single object, found array"@,
            ErrorKind::Duplicate => "Object has already been relayed"@,
            ErrorKind::Breaker => "Not trying request due to failed breaker"@,
            ErrorKind::BodyTooLarge => "Body is too large"@,
            ErrorKind::Status(a, code) => "Response from "@ + a@ + " has invalid status code, "@
                + spec_decimal(code as int),
            ErrorKind::SendRequest(a, d) => "Couldn't send request to "@ + a@ + ", "@ + d@,
            ErrorKind::ReceiveResponse(a, d) => "Couldn't receive request response from "@ + a@
                + ", "@ + d@,
            ErrorKind::Signature => "Couldn't sign digest"@,
            ErrorKind::VerifySignature => "Couldn't verify signature"@,
            ErrorKind::Canceled => "Blocking operation was canceled"@,
            ErrorKind::Config => "Error in configuration"@,
            ErrorKind::Storage(d) => "Couldn't use db, "@ + d@,
            ErrorKind::Json(d) => "Couldn't do the json thing, "@ + d@,
        }
    }

    pub fn message(&self) -> (r: String)
        ensures
            r@ == self.spec_message(),
    {
        match self {
            ErrorKind::NotSubscribed(a) => String::from_str("Actor (").concat(a.as_str()).concat(
                "), or Actor's server, is not subscribed",
            ),
            ErrorKind::NotAllowed(a) => String::from_str("Actor is not allowed, ").concat(
                a.as_str(),
            ),
            ErrorKind::WrongActor(_, actual) => String::from_str(
                "Cannot make decisions for foreign actor, ",
            ).concat(actual.as_str()),
            ErrorKind::BadActor(claimed, payload) => String::from_str("Actor (").concat(
                claimed.as_str(),
            ).concat(") tried to submit another actor's (").concat(payload.as_str()).concat(
                ") payload",
            ),
            ErrorKind::NoSignature => String::from_str(
                "Signature verification is required, but no signature was given",
            ),
            ErrorKind::Kind(k) => String::from_str("Wrong ActivityPub kind, ").concat(k.as_str()),
            ErrorKind::MissingKind => String::from_str("Input is missing a 'type' field"),
            ErrorKind::MissingId => String::from_str("Input is missing a 'id' field"),
            ErrorKind::MissingDomain => String::from_str("IRI is missing a domain"),
            ErrorKind::HostMismatch => String::from_str("Host mismatch"),
            ErrorKind::ObjectCount => String::from_str("Expected a single object, found array"),
            ErrorKind::Duplicate => String::from_str("Object has already been relayed"),
            ErrorKind::Breaker => String::from_str("Not trying request due to failed breaker"),
            ErrorKind::BodyTooLarge => String::from_str("Body is too large"),
            ErrorKind::Status(a, code) => String::from_str("Response from ").concat(
                a.as_str(),
            ).concat(" has invalid status code, ").concat(decimal_u16(*code).as_str()),
            ErrorKind::SendRequest(a, d) => String::from_str("Couldn't send request to ").concat(
                a.as_str(),
            ).concat(", ").concat(d.as_str()),
            ErrorKind::ReceiveResponse(a, d) => String::from_str(
                "Couldn't receive request response from ",
            ).concat(a.as_str()).concat(", ").concat(d.as_str()),
            ErrorKind::Signature => String::from_str("Couldn't sign digest"),
            ErrorKind::VerifySignature => String::from_str("Couldn't verify signature"),
            ErrorKind::Canceled => String::from_str("Blocking operation was canceled"),
            ErrorKind::Config => String::from_str("Error in configuration"),
            ErrorKind::Storage(d) => String::from_str("Couldn't use db, ").concat(d.as_str()),
            ErrorKind::Json(d) => String::from_str("Couldn't do the json thing, ").concat(
                d.as_str(),
            ),
        }
    }
}

/// The character of one decimal digit.
pub open spec fn digit_char(d: int) -> char {
    if d == 0 {
        '0'
    } else if d == 1 {
        '1'
    } else if d == 2 {
        '2'
    } else if d == 3 {
        '3'
    } else if d == 4 {
        '4'
    } else if d == 5 {
        '5'
    } else if d == 6 {
        '6'
    } else if d == 7 {
        '7'
    } else if d == 8 {
        '8'
    } else {
        '9'
    }
}

/// The decimal rendering of a non-negative number, most significant digit
/// first.
pub open spec fn spec_decimal(n: int) -> Seq<char>
    decreases n,
{
    if n < 10 {
        seq![digit_char(n)]
    } else {
        spec_decimal(n / 10).push(digit_char(n % 10))
    }
}

/// One decimal digit as text.
fn digit_str(d: u16) -> (r: &'static str)
    requires
        d < 10,
    ensures
        r@ =~= seq![digit_char(d as int)],
{
    proof {
        reveal_strlit("0");
        reveal_strlit("1");
        reveal_strlit("2");
        reveal_strlit("3");
        reveal_strlit("4");
        reveal_strlit("5");
        reveal_strlit("6");
        reveal_strlit("7");
        reveal_strlit("8");
        reveal_strlit("9");
    }
    match d {
        0 => "0",
        1 => "1",
        2 => "2",
        3 => "3",
        4 => "4",
        5 => "5",
        6 => "6",
        7 => "7",
        8 => "8",
        _ => "9",
    }
}

/// Render a number in decimal.
pub fn decimal_u16(n: u16) -> (r: String)
    ensures
        r@ == spec_decimal(n as int),
    decreases n,
{
    if n < 10 {
        digit_str(n).to_owned()
    } else {
        decimal_u16(n / 10).concat(digit_str(n % 10))
    }
}

} // verus!
