//! Certification decisions and the identifier of a certification record.
use vstd::prelude::*;
use vstd::utf8::encode_utf8;

use crate::record::{byte_parts, stable_hash, stable_hash_hex};
use crate::text::{le_bytes, le_bytes_vec};
use crate::types::CertificationState;

verus! {

/// The state a certification resolves to: an explicit hold (pending), a
/// revocation and a suspension take precedence, in that order, over the
/// AuthRatio outcome.
pub open spec fn resolved_state(
    force_pending: bool,
    revoked: bool,
    suspended: bool,
    score_certified: bool,
) -> CertificationState {
    if force_pending {
        CertificationState::Pending
    } else if revoked {
        CertificationState::Revoked
    } else if suspended {
        CertificationState::Suspended
    } else if score_certified {
        CertificationState::Certified
    } else {
        CertificationState::Uncertified
    }
}

/// Resolves the certification state from the status controls and whether
/// the AuthRatio met its threshold.
///
/// The state is `Certified` only when the score met the threshold and no
/// control holds, revokes or suspends the vector (fail-closed).
pub fn resolve_certification_state(
    force_pending: bool,
    revoked: bool,
    suspended: bool,
    score_certified: bool,
) -> (s: CertificationState)
    ensures
        s == resolved_state(force_pending, revoked, suspended, score_certified),
        (s == CertificationState::Certified) <==> (!force_pending && !revoked && !suspended
            && score_certified),
        force_pending ==> s == CertificationState::Pending,
        !force_pending && revoked ==> s == CertificationState::Revoked,
        !force_pending && !revoked && suspended ==> s == CertificationState::Suspended,
        !force_pending && !revoked && !suspended && !score_certified ==> s
            == CertificationState::Uncertified,
{
    let mut state = if force_pending {
        CertificationState::Pending
    } else if revoked {
        CertificationState::Revoked
    } else if suspended {
        CertificationState::Suspended
    } else if score_certified {
        CertificationState::Certified
    } else {
        CertificationState::Uncertified
    };
    if state == CertificationState::Certified && !score_certified {
        state = CertificationState::Uncertified;
    }
    state
}

/// The reason recorded for a state other than `Certified`.
pub open spec fn reason_text(state: CertificationState) -> Seq<char> {
    match state {
        CertificationState::Certified => Seq::empty(),
        CertificationState::Pending => "pending validation"@,
        CertificationState::Uncertified => "AuthRatio below threshold or proof missing"@,
        CertificationState::Suspended => "temporarily blocked by policy"@,
        CertificationState::Revoked => "revoked by policy or explicit reauthorization required"@,
    }
}

/// The reason that accompanies a certification state: none for `Certified`.
pub fn certification_reason(state: CertificationState) -> (r: Option<String>)
    ensures
        r is None <==> state == CertificationState::Certified,
        r matches Some(m) ==> m@ == reason_text(state),
        state == CertificationState::Pending ==> (r matches Some(m) && m@ == "pending validation"@),
        state == CertificationState::Uncertified ==> (r matches Some(m) && m@
            == "AuthRatio below threshold or proof missing"@),
        state == CertificationState::Suspended ==> (r matches Some(m) && m@
            == "temporarily blocked by policy"@),
        state == CertificationState::Revoked ==> (r matches Some(m) && m@
            == "revoked by policy or explicit reauthorization required"@),
{
    match state {
        CertificationState::Certified => None,
        CertificationState::Pending => Some("pending validation".to_owned()),
        CertificationState::Uncertified => Some(
            "AuthRatio below threshold or proof missing".to_owned(),
        ),
        CertificationState::Suspended => Some("temporarily blocked by policy".to_owned()),
        CertificationState::Revoked => Some(
            "revoked by policy or explicit reauthorization required".to_owned(),
        ),
    }
}

/// Whether a state lets a restricted operation (such as a drain) through:
/// only `Certified` does.
pub fn certification_gate(state: CertificationState) -> (b: bool)
    ensures
        b <==> state == CertificationState::Certified,
{
    match state {
        CertificationState::Certified => true,
        _ => false,
    }
}

/// The parts hashed into a certification event identifier.
pub open spec fn certification_eid_parts(
    region_id: Seq<char>,
    entity_id: Seq<char>,
    actor_pk: Seq<char>,
    proof_text: Seq<char>,
    logical_clock: u64,
    timestamp: u64,
) -> Seq<Seq<u8>> {
    seq![
        encode_utf8(region_id),
        encode_utf8(entity_id),
        encode_utf8(actor_pk),
        encode_utf8(proof_text),
        le_bytes(logical_clock),
        le_bytes(timestamp),
    ]
}

/// The event identifier of a certification record: the stable hash of the
/// region, entity, actor key, proof, clock and timestamp.
pub fn certification_event_id(
    region_id: &str,
    entity_id: &str,
    actor_pk: &str,
    proof_text: &str,
    logical_clock: u64,
    timestamp: u64,
) -> (r: String)
    ensures
        r@ == stable_hash(
            certification_eid_parts(
                region_id@,
                entity_id@,
                actor_pk@,
                proof_text@,
                logical_clock,
                timestamp,
            ),
        ),
        r@.len() == 64,
{
    let clock = le_bytes_vec(logical_clock);
    let time = le_bytes_vec(timestamp);
    let mut parts: Vec<&[u8]> = Vec::new();
    parts.push(region_id.as_bytes());
    parts.push(entity_id.as_bytes());
    parts.push(actor_pk.as_bytes());
    parts.push(proof_text.as_bytes());
    parts.push(clock.as_slice());
    parts.push(time.as_slice());
    proof {
        assert(byte_parts(parts@) =~= certification_eid_parts(
            region_id@,
            entity_id@,
            actor_pk@,
            proof_text@,
            logical_clock,
            timestamp,
        ));
    }
    stable_hash_hex(parts.as_slice())
}

} // verus!
