//! Protocol-level error classes of the authentication layer.
use vstd::prelude::*;

verus! {

/// Protocol-level error classes for the Vector Network authentication layer.
///
/// The classes that carry a floating-point payload (a weight sum out of
/// bounds, a score out of bounds) belong to the scoring layer and are not
/// produced by this library.
#[derive(Debug, Clone, PartialEq)]
pub enum AuthxError {
    ErrAuthFailed(String),
    ErrUnauthorized(String),
    ErrUncertified(String),
    ErrInvalidType(String),
    ErrInvalidState(String),
    ErrInvalidDrain(String),
    ErrInvalidProjection(String),
    ErrInvalidReconstruction(String),
    ErrInvalidOrigin(String),
    ErrInvalidRecord(String),
    ErrInvalidInput(String),
    ErrMissingField(&'static str),
    ErrAmbiguousThreshold(String),
    ErrZeroVectorNormalization,
    ErrUnknownPolicyVersion(String),
    ErrRevalidationBlocked(String),
}

/// `prefix` followed by `s`.
fn prefixed(prefix: &str, s: &str) -> (r: String)
    ensures
        r@ == prefix@ + s@,
{
    let mut r = prefix.to_owned();
    r.append(s);
    r
}

impl AuthxError {
    /// The human-readable text of an error.
    pub open spec fn message_text(&self) -> Seq<char> {
        match self {
            AuthxError::ErrAuthFailed(s) => "authentication failed: "@ + s@,
            AuthxError::ErrUnauthorized(s) => "unauthorized: "@ + s@,
            AuthxError::ErrUncertified(s) => "uncertified: "@ + s@,
            AuthxError::ErrInvalidType(s) => "invalid type: "@ + s@,
            AuthxError::ErrInvalidState(s) => "invalid state: "@ + s@,
            AuthxError::ErrInvalidDrain(s) => "invalid drain: "@ + s@,
            AuthxError::ErrInvalidProjection(s) => "invalid projection: "@ + s@,
            AuthxError::ErrInvalidReconstruction(s) => "invalid reconstruction: "@ + s@,
            AuthxError::ErrInvalidOrigin(s) => "invalid origin: "@ + s@,
            AuthxError::ErrInvalidRecord(s) => "invalid record: "@ + s@,
            AuthxError::ErrInvalidInput(s) => "invalid input: "@ + s@,
            AuthxError::ErrMissingField(s) => "missing field: "@ + s@,
            AuthxError::ErrAmbiguousThreshold(s) => "ambiguous threshold: "@ + s@,
            AuthxError::ErrUnknownPolicyVersion(s) => "unknown policy version: "@ + s@,
            AuthxError::ErrRevalidationBlocked(s) => "revalidation blocked: "@ + s@,
            AuthxError::ErrZeroVectorNormalization => "zero vector cannot be normalized"@,
        }
    }

    /// Renders the error as a human-readable message.
    pub fn message(&self) -> (r: String)
        ensures
            r@ == self.message_text(),
    {
        match self {
            AuthxError::ErrAuthFailed(s) => prefixed("authentication failed: ", s),
            AuthxError::ErrUnauthorized(s) => prefixed("unauthorized: ", s),
            AuthxError::ErrUncertified(s) => prefixed("uncertified: ", s),
            AuthxError::ErrInvalidType(s) => prefixed("invalid type: ", s),
            AuthxError::ErrInvalidState(s) => prefixed("invalid state: ", s),
            AuthxError::ErrInvalidDrain(s) => prefixed("invalid drain: ", s),
            AuthxError::ErrInvalidProjection(s) => prefixed("invalid projection: ", s),
            AuthxError::ErrInvalidReconstruction(s) => prefixed("invalid reconstruction: ", s),
            AuthxError::ErrInvalidOrigin(s) => prefixed("invalid origin: ", s),
            AuthxError::ErrInvalidRecord(s) => prefixed("invalid record: ", s),
            AuthxError::ErrInvalidInput(s) => prefixed("invalid input: ", s),
            AuthxError::ErrMissingField(s) => prefixed("missing field: ", s),
            AuthxError::ErrAmbiguousThreshold(s) => prefixed("ambiguous threshold: ", s),
            AuthxError::ErrUnknownPolicyVersion(s) => prefixed("unknown policy version: ", s),
            AuthxError::ErrRevalidationBlocked(s) => prefixed("revalidation blocked: ", s),
            AuthxError::ErrZeroVectorNormalization => "zero vector cannot be normalized".to_owned(),
        }
    }
}

} // verus!
