//! The origin gate: validation of creation requests, the origin hash, the
//! created canonical vector and the origin event identifier.
use vstd::prelude::*;
use vstd::utf8::encode_utf8;

use crate::entries::all_zero;
use crate::error::AuthxError;
use crate::record::{byte_parts, stable_hash, stable_hash_hex};
use crate::text::{is_blank, is_blank_spec, le_bytes, le_bytes_vec, starts_with};
use crate::types::{CanonicalVector, VectorType};
use crate::vector::VectorState;

verus! {

/// The parts hashed by `origin_hash`.
pub open spec fn origin_hash_parts(
    origin_id: Seq<char>,
    challenge_id: Seq<char>,
    owner_pk: Seq<char>,
    proof_material: Seq<char>,
) -> Seq<Seq<u8>> {
    seq![
        encode_utf8(origin_id),
        encode_utf8(challenge_id),
        encode_utf8(owner_pk),
        encode_utf8(proof_material),
    ]
}

/// The stable hash of an origin's identifier, challenge, owner key and proof.
pub fn origin_hash(origin_id: &str, challenge_id: &str, owner_pk: &str, proof_material: &str) -> (r:
    String)
    ensures
        r@ == stable_hash(origin_hash_parts(origin_id@, challenge_id@, owner_pk@, proof_material@)),
        r@.len() == 64,
{
    let mut parts: Vec<&[u8]> = Vec::new();
    parts.push(origin_id.as_bytes());
    parts.push(challenge_id.as_bytes());
    parts.push(owner_pk.as_bytes());
    parts.push(proof_material.as_bytes());
    proof {
        assert(byte_parts(parts@) =~= origin_hash_parts(
            origin_id@,
            challenge_id@,
            owner_pk@,
            proof_material@,
        ));
    }
    stable_hash_hex(parts.as_slice())
}

/// The plain fields of a creation request.
pub struct OriginRequest {
    pub origin_id: String,
    pub region_id: String,
    pub entity_id: String,
    pub owner_pk: String,
    pub vector: VectorState,
    pub vector_type: VectorType,
    pub challenge_id: String,
    pub proof_material: String,
    pub proof_material_override: Option<String>,
    pub logical_clock: u64,
    pub timestamp: u64,
}

/// What an accepted creation request yields before certification.
pub struct OriginDraft {
    /// The proof material in force: the override when given.
    pub proof_material: String,
    /// The digest of the request.
    pub origin_hash: String,
    /// The vector to certify, carrying the origin metadata.
    pub created_vector: CanonicalVector,
    /// The identifier of the origin event.
    pub eid: String,
}

/// The message of a challenge without the required prefix.
pub open spec fn prefix_message() -> Seq<char> {
    "challenge id does not match the required origin prefix"@
}

/// The message of a zero vector that policy forbids.
pub open spec fn zero_origin_message() -> Seq<char> {
    "zero-vector origin is not allowed by policy"@
}

/// The error a creation request is refused with, checks taken in order: the
/// required fields, the challenge prefix, the effort (refused with the
/// caller's message when `effort_shortfall` holds one), the zero vector,
/// the proof payload in force (which must not be empty).
pub open spec fn origin_refusal(
    e: AuthxError,
    req: OriginRequest,
    prefix: Seq<char>,
    allow_zero: bool,
    effort_shortfall: Option<String>,
) -> bool {
    if is_blank_spec(req.origin_id@) {
        e matches AuthxError::ErrMissingField(f) && f@ == "origin_id"@
    } else if is_blank_spec(req.region_id@) {
        e matches AuthxError::ErrMissingField(f) && f@ == "region_id"@
    } else if is_blank_spec(req.entity_id@) {
        e matches AuthxError::ErrMissingField(f) && f@ == "entity_id"@
    } else if is_blank_spec(req.owner_pk@) {
        e matches AuthxError::ErrMissingField(f) && f@ == "owner_pk"@
    } else if is_blank_spec(req.challenge_id@) {
        e matches AuthxError::ErrMissingField(f) && f@ == "proof.challenge_id"@
    } else if !prefix.is_prefix_of(req.challenge_id@) {
        e matches AuthxError::ErrInvalidOrigin(m) && m@ == prefix_message()
    } else if effort_shortfall is Some {
        e matches AuthxError::ErrInvalidOrigin(m) && m@ == effort_shortfall.unwrap()@
    } else if all_zero(req.vector@) && !allow_zero {
        e matches AuthxError::ErrInvalidOrigin(m) && m@ == zero_origin_message()
    } else {
        e matches AuthxError::ErrMissingField(f) && f@ == "proof.proof_material"@
    }
}

/// The message of an origin vector that did not pass certification.
pub open spec fn uncertified_origin_message() -> Seq<char> {
    "origin vector did not pass certification"@
}

/// The certification requirement of an origin: no origin is accepted, and
/// no record emitted, unless its vector passed certification.
pub fn require_origin_certification(certified: bool) -> (r: Result<(), AuthxError>)
    ensures
        r is Ok <==> certified,
        r matches Err(e) ==> e matches AuthxError::ErrUncertified(m) && m@
            == uncertified_origin_message(),
{
    if certified {
        Ok(())
    } else {
        Err(AuthxError::ErrUncertified("origin vector did not pass certification".to_owned()))
    }
}

/// Whether a creation request passes every check.
pub open spec fn origin_accepted(
    req: OriginRequest,
    prefix: Seq<char>,
    allow_zero: bool,
    effort_sufficient: bool,
) -> bool {
    &&& !is_blank_spec(req.origin_id@)
    &&& !is_blank_spec(req.region_id@)
    &&& !is_blank_spec(req.entity_id@)
    &&& !is_blank_spec(req.owner_pk@)
    &&& !is_blank_spec(req.challenge_id@)
    &&& prefix.is_prefix_of(req.challenge_id@)
    &&& effort_sufficient
    &&& (allow_zero || !all_zero(req.vector@))
    &&& proof_material_of(req).len() > 0
}

/// The proof material in force for a request.
pub open spec fn proof_material_of(req: OriginRequest) -> Seq<char> {
    match req.proof_material_override {
        Some(p) => p@,
        None => req.proof_material@,
    }
}

/// The parts hashed into the origin hash of a request.
pub open spec fn origin_digest_parts(req: OriginRequest) -> Seq<Seq<u8>> {
    seq![
        encode_utf8(req.origin_id@),
        encode_utf8(req.region_id@),
        encode_utf8(req.entity_id@),
        encode_utf8(req.owner_pk@),
        encode_utf8(req.challenge_id@),
        encode_utf8(proof_material_of(req)),
        le_bytes(req.logical_clock),
        le_bytes(req.timestamp),
    ]
}

/// The parts hashed into the origin event identifier.
pub open spec fn origin_eid_parts(req: OriginRequest, digest: Seq<char>) -> Seq<Seq<u8>> {
    seq![
        encode_utf8(req.origin_id@),
        encode_utf8(req.entity_id@),
        encode_utf8(req.owner_pk@),
        encode_utf8(digest),
    ]
}

/// The views of metadata pairs.
pub open spec fn meta_views(m: Seq<(String, String)>) -> Seq<(Seq<char>, Seq<char>)> {
    m.map_values(|e: (String, String)| (e.0@, e.1@))
}

/// Validates a creation request and assembles its digest, vector and event
/// identifier.
///
/// `effort_shortfall` holds the refusal message when the proof's effort
/// score is below the policy minimum (a floating-point comparison the
/// caller makes), and is `None` otherwise.
pub fn prepare_origin(
    req: &OriginRequest,
    expected_challenge_prefix: &str,
    allow_zero_vector_origin: bool,
    effort_shortfall: Option<String>,
) -> (r: Result<OriginDraft, AuthxError>)
    ensures
        r is Ok <==> origin_accepted(
            *req,
            expected_challenge_prefix@,
            allow_zero_vector_origin,
            effort_shortfall is None,
        ),
        r matches Err(e) ==> origin_refusal(
            e,
            *req,
            expected_challenge_prefix@,
            allow_zero_vector_origin,
            effort_shortfall,
        ),
        r is Ok ==> expected_challenge_prefix@.is_prefix_of(req.challenge_id@),
        r is Ok ==> effort_shortfall is None,
        r is Ok ==> allow_zero_vector_origin || !all_zero(req.vector@),
        r is Ok ==> proof_material_of(*req).len() > 0,
        r is Ok ==> !is_blank_spec(req.origin_id@) && !is_blank_spec(req.region_id@)
            && !is_blank_spec(req.entity_id@) && !is_blank_spec(req.owner_pk@) && !is_blank_spec(
            req.challenge_id@,
        ),
        !is_blank_spec(req.origin_id@) && !is_blank_spec(req.region_id@) && !is_blank_spec(
            req.entity_id@,
        ) && !is_blank_spec(req.owner_pk@) && !is_blank_spec(req.challenge_id@)
            && !expected_challenge_prefix@.is_prefix_of(req.challenge_id@) ==> (r matches Err(
            AuthxError::ErrInvalidOrigin(m),
        ) && m@ == prefix_message()),
        r matches Ok(d) ==> {
            &&& d.proof_material@ == proof_material_of(*req)
            &&& d.origin_hash@ == stable_hash(origin_digest_parts(*req))
            &&& d.eid@ == stable_hash(origin_eid_parts(*req, d.origin_hash@))
            &&& d.created_vector.v.entries() == req.vector.entries()
            &&& d.created_vector.pk@ == req.owner_pk@
            &&& d.created_vector.tau == req.vector_type
            &&& meta_views(d.created_vector.meta@) == seq![
                ("origin_challenge"@, req.challenge_id@),
                ("origin_hash"@, d.origin_hash@),
                ("origin_id"@, req.origin_id@),
            ]
        },
{
    if is_blank(req.origin_id.as_str()) {
        return Err(AuthxError::ErrMissingField("origin_id"));
    }
    if is_blank(req.region_id.as_str()) {
        return Err(AuthxError::ErrMissingField("region_id"));
    }
    if is_blank(req.entity_id.as_str()) {
        return Err(AuthxError::ErrMissingField("entity_id"));
    }
    if is_blank(req.owner_pk.as_str()) {
        return Err(AuthxError::ErrMissingField("owner_pk"));
    }
    if is_blank(req.challenge_id.as_str()) {
        return Err(AuthxError::ErrMissingField("proof.challenge_id"));
    }
    if !starts_with(req.challenge_id.as_str(), expected_challenge_prefix) {
        return Err(
            AuthxError::ErrInvalidOrigin(
                "challenge id does not match the required origin prefix".to_owned(),
            ),
        );
    }
    if let Some(msg) = effort_shortfall {
        return Err(AuthxError::ErrInvalidOrigin(msg));
    }
    if req.vector.is_zero() && !allow_zero_vector_origin {
        return Err(
            AuthxError::ErrInvalidOrigin("zero-vector origin is not allowed by policy".to_owned()),
        );
    }
    let proof_material = match &req.proof_material_override {
        Some(p) => p.clone(),
        None => req.proof_material.clone(),
    };
    if proof_material.as_str().is_empty() {
        return Err(AuthxError::ErrMissingField("proof.proof_material"));
    }
    let clock = le_bytes_vec(req.logical_clock);
    let time = le_bytes_vec(req.timestamp);
    let mut parts: Vec<&[u8]> = Vec::new();
    parts.push(req.origin_id.as_str().as_bytes());
    parts.push(req.region_id.as_str().as_bytes());
    parts.push(req.entity_id.as_str().as_bytes());
    parts.push(req.owner_pk.as_str().as_bytes());
    parts.push(req.challenge_id.as_str().as_bytes());
    parts.push(proof_material.as_str().as_bytes());
    parts.push(clock.as_slice());
    parts.push(time.as_slice());
    proof {
        assert(byte_parts(parts@) =~= origin_digest_parts(*req));
    }
    let digest = stable_hash_hex(parts.as_slice());
    let mut meta: Vec<(String, String)> = Vec::new();
    meta.push(("origin_challenge".to_owned(), req.challenge_id.clone()));
    meta.push(("origin_hash".to_owned(), digest.clone()));
    meta.push(("origin_id".to_owned(), req.origin_id.clone()));
    let created_vector = CanonicalVector {
        v: req.vector.clone(),
        pk: req.owner_pk.clone(),
        tau: req.vector_type,
        meta,
    };
    let mut eid_parts: Vec<&[u8]> = Vec::new();
    eid_parts.push(req.origin_id.as_str().as_bytes());
    eid_parts.push(req.entity_id.as_str().as_bytes());
    eid_parts.push(req.owner_pk.as_str().as_bytes());
    eid_parts.push(digest.as_str().as_bytes());
    proof {
        assert(byte_parts(eid_parts@) =~= origin_eid_parts(*req, digest@));
        assert(meta_views(created_vector.meta@) =~= seq![
            ("origin_challenge"@, req.challenge_id@),
            ("origin_hash"@, digest@),
            ("origin_id"@, req.origin_id@),
        ]);
    }
    let eid = stable_hash_hex(eid_parts.as_slice());
    Ok(OriginDraft { proof_material, origin_hash: digest, created_vector, eid })
}

} // verus!
