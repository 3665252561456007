use v_authx::auth_ratio::{magnitude_grade, MagnitudeGrade};
use v_authx::certification::{
    certification_event_id, certification_gate, certification_reason, resolve_certification_state,
};
use v_authx::origin::{origin_hash, prepare_origin, require_origin_certification, OriginRequest};
use v_authx::record::{hash_record_fields, stable_hash_hex, vector_event_hash, vector_signature_payload};
use v_authx::text::{compare_text, decimal_text, hex16_text, is_blank, le_bytes_vec, starts_with, KeyOrder};
use v_authx::types::{risk_level, CanonicalVector, RiskLevel};
use v_authx::{check_absolute_drain, retained_amount, AbsoluteDrain};
use v_authx::{AuthxError, CertificationState, VectorState, VectorType};
use CertificationState::{Certified, Pending, Revoked, Suspended, Uncertified};

fn sample_vector() -> VectorState {
    VectorState::from_pairs(vec![("alpha".to_string(), 60), ("beta".to_string(), 40)])
}

#[test]
fn stable_hash_of_nothing_is_the_initial_lanes() {
    let parts: Vec<&[u8]> = Vec::new();
    assert_eq!(
        stable_hash_hex(&parts),
        "cbf29ce48422232584222325cbf29ce49e3779b185ebca8794d049bb133111eb"
    );
}

#[test]
fn stable_hash_known_values() {
    let ab: &[u8] = b"ab";
    let c: &[u8] = b"c";
    let abc: &[u8] = b"abc";
    assert_eq!(
        stable_hash_hex(&[ab, c]),
        "78b7879b74e5d2bc3c9a38024b9ea5a9f933f32d254116743d371da193ec0ee9"
    );
    // Part boundaries count.
    assert_eq!(
        stable_hash_hex(&[abc]),
        "5f23302ae64838b58c739f4933ed5c935483b6a88842a38c0c72d112717c31ad"
    );
}

#[test]
fn stable_hash_is_64_lower_hex_digits() {
    let s: &[u8] = "héllo".as_bytes();
    let h = stable_hash_hex(&[s]);
    assert_eq!(h, "7b6beba91c3a9baed86b9c75e8778057f483b69cdc62a35788f48a1918de4286");
    assert_eq!(h.len(), 64);
    assert!(h.chars().all(|c| c.is_ascii_digit() || ('a'..='f').contains(&c)));
}

#[test]
fn hash_record_fields_hashes_utf8_bytes() {
    assert_eq!(
        hash_record_fields(&["x".to_string(), "y".to_string()]),
        "5165009c3e6fd2c0c44ee7b2b4a94aedf933f32d254116743d371da193ec0ee9"
    );
}

#[test]
fn origin_hash_known_value() {
    let h = origin_hash("origin-001", "origin:challenge-001", "pk_001", "proof-material");
    assert_eq!(h, "8a9e632ebf847f7f8365c9eb35bfd8c13887c2f5960015603772cd3acd2a525d");
}

#[test]
fn signature_payload_joins_with_colons() {
    assert_eq!(
        vector_signature_payload("e1", "CREATE", "entity-001", "pk_001", "abcd"),
        "e1:CREATE:entity-001:pk_001:abcd"
    );
}

#[test]
fn event_hash_known_value() {
    let after = VectorState::zero();
    let h = vector_event_hash(
        "e1",
        &["parent-1".to_string()],
        "r",
        "en",
        "CERTIFY",
        "0.950000000000",
        true,
        1,
        1_700_000_000,
        &sample_vector(),
        &after,
        "p",
    );
    assert_eq!(h, "7471f259f36f75b2de7628ad79aa0caf4cc86d22e3b8742eaa4b20528d7df0f9");
    assert_eq!(h.len(), 64);
}

#[test]
fn certification_event_id_known_value() {
    let eid = certification_event_id("region-a", "entity-001", "pk_001", "proof", 7, 1_700_000_000);
    assert_eq!(eid, "8545b9e76cec9776e4956c14c4069e9f4ac08402f3beb4dba2a30fddb67f6290");
}

#[test]
fn certification_state_precedence() {
    assert_eq!(resolve_certification_state(true, true, true, true), Pending);
    assert_eq!(resolve_certification_state(false, true, true, true), Revoked);
    assert_eq!(resolve_certification_state(false, false, true, true), Suspended);
    assert_eq!(resolve_certification_state(false, false, false, true), Certified);
    assert_eq!(resolve_certification_state(false, false, false, false), Uncertified);
}

#[test]
fn certification_reasons() {
    assert_eq!(certification_reason(Certified), None);
    assert_eq!(certification_reason(Pending), Some("pending validation".to_string()));
    assert_eq!(
        certification_reason(Uncertified),
        Some("AuthRatio below threshold or proof missing".to_string())
    );
    assert_eq!(certification_reason(Suspended), Some("temporarily blocked by policy".to_string()));
    assert_eq!(
        certification_reason(Revoked),
        Some("revoked by policy or explicit reauthorization required".to_string())
    );
}

#[test]
fn only_certified_passes_certification_gate() {
    assert!(certification_gate(Certified));
    for s in [Pending, Uncertified, Suspended, Revoked] {
        assert!(!certification_gate(s));
    }
}

#[test]
fn magnitude_grades() {
    assert_eq!(magnitude_grade(100, None, VectorType::Free), Ok(MagnitudeGrade::Valid));
    assert_eq!(magnitude_grade(0, None, VectorType::Free), Ok(MagnitudeGrade::UnexpectedZero));
    assert_eq!(magnitude_grade(0, None, VectorType::Zero), Ok(MagnitudeGrade::Valid));
    assert_eq!(magnitude_grade(5, Some((10, 20)), VectorType::Free), Ok(MagnitudeGrade::Outside));
    assert_eq!(magnitude_grade(21, Some((10, 20)), VectorType::Free), Ok(MagnitudeGrade::Outside));
    assert_eq!(magnitude_grade(20, Some((10, 20)), VectorType::Free), Ok(MagnitudeGrade::Valid));
    assert_eq!(magnitude_grade(0, Some((0, 20)), VectorType::Unit), Ok(MagnitudeGrade::UnexpectedZero));
    assert_eq!(
        magnitude_grade(15, Some((20, 10)), VectorType::Free),
        Err(AuthxError::ErrInvalidInput("magnitude bounds are inverted".to_string()))
    );
}

#[test]
fn risk_levels_ignore_ascii_case() {
    assert_eq!(risk_level("low"), RiskLevel::Low);
    assert_eq!(risk_level("Medium"), RiskLevel::Medium);
    assert_eq!(risk_level("HIGH"), RiskLevel::High);
    assert_eq!(risk_level("critical"), RiskLevel::Critical);
    assert_eq!(risk_level("severe"), RiskLevel::Unlisted);
    assert_eq!(risk_level(" low"), RiskLevel::Unlisted);
}

#[test]
fn text_helpers() {
    assert_eq!(decimal_text(0), "0");
    assert_eq!(decimal_text(1_700_000_000), "1700000000");
    assert_eq!(decimal_text(u128::MAX), u128::MAX.to_string());
    assert_eq!(hex16_text(0xab), "00000000000000ab");
    assert_eq!(le_bytes_vec(0x0102030405060708), vec![8, 7, 6, 5, 4, 3, 2, 1]);
    assert!(is_blank(" \n\t"));
    assert!(!is_blank(" a "));
    assert!(starts_with("origin:abc", "origin:"));
    assert!(!starts_with("origin", "origin:"));
    assert_eq!(compare_text("a", "b"), KeyOrder::Less);
    assert_eq!(compare_text("ab", "a"), KeyOrder::Greater);
    assert_eq!(compare_text("é", "é"), KeyOrder::Equal);
}

fn origin_request() -> OriginRequest {
    OriginRequest {
        origin_id: "origin-001".to_string(),
        region_id: "region-a".to_string(),
        entity_id: "entity-001".to_string(),
        owner_pk: "pk_001".to_string(),
        vector: sample_vector(),
        vector_type: VectorType::Free,
        challenge_id: "origin:challenge-001".to_string(),
        proof_material: "proof-material".to_string(),
        proof_material_override: None,
        logical_clock: 1,
        timestamp: 1_700_000_000,
    }
}

#[test]
fn origin_creation_requires_effort_and_certifies() {
    let req = origin_request();
    // The proof's effort score, 0.9, meets the default minimum of 0.75.
    let draft = prepare_origin(&req, "origin:", false, None).unwrap();
    assert_eq!(draft.created_vector.meta[2].1, "origin-001");
    assert_eq!(draft.proof_material, "proof-material");
    assert_eq!(
        draft.origin_hash,
        "f44eb2cd13f416be9aacda99ffd98da61c53018aa7365f831cd752c423e0962f"
    );
    assert_eq!(draft.eid, "4c1c0b4310c84d0cc0e74b144d17c99e4bd19e0013aad61d455a7b61870c5d68");
    let expected = CanonicalVector {
        v: sample_vector(),
        pk: "pk_001".to_string(),
        tau: VectorType::Free,
        meta: vec![
            ("origin_challenge".to_string(), "origin:challenge-001".to_string()),
            ("origin_hash".to_string(), draft.origin_hash.clone()),
            ("origin_id".to_string(), "origin-001".to_string()),
        ],
    };
    assert_eq!(draft.created_vector, expected);
    let event_hash = vector_event_hash(
        &draft.eid,
        &[],
        &req.region_id,
        &req.entity_id,
        "CREATE",
        "1.000000000000",
        true,
        req.logical_clock,
        req.timestamp,
        &VectorState::zero(),
        &req.vector,
        &draft.proof_material,
    );
    assert!(event_hash.len() == 64);
    let signature = vector_signature_payload(&draft.eid, "CREATE", &req.entity_id, &req.owner_pk, &event_hash);
    assert_eq!(signature, format!("{}:CREATE:entity-001:pk_001:{}", draft.eid, event_hash));
}

#[test]
fn origin_override_replaces_proof_material() {
    let mut req = origin_request();
    req.proof_material_override = Some("other".to_string());
    let draft = prepare_origin(&req, "origin:", false, None).unwrap();
    assert_eq!(draft.proof_material, "other");
    assert_ne!(draft.origin_hash, "f44eb2cd13f416be9aacda99ffd98da61c53018aa7365f831cd752c423e0962f");
}

#[test]
fn origin_refusals_in_order() {
    let mut req = origin_request();
    req.origin_id = "  ".to_string();
    req.region_id = String::new();
    assert_eq!(
        prepare_origin(&req, "origin:", false, None).err(),
        Some(AuthxError::ErrMissingField("origin_id"))
    );
    let mut req = origin_request();
    req.region_id = String::new();
    assert_eq!(
        prepare_origin(&req, "origin:", false, None).err(),
        Some(AuthxError::ErrMissingField("region_id"))
    );
    let mut req = origin_request();
    req.entity_id = " ".to_string();
    assert_eq!(
        prepare_origin(&req, "origin:", false, None).err(),
        Some(AuthxError::ErrMissingField("entity_id"))
    );
    let mut req = origin_request();
    req.owner_pk = "\n".to_string();
    assert_eq!(
        prepare_origin(&req, "origin:", false, None).err(),
        Some(AuthxError::ErrMissingField("owner_pk"))
    );
    let mut req = origin_request();
    req.challenge_id = String::new();
    assert_eq!(
        prepare_origin(&req, "origin:", false, None).err(),
        Some(AuthxError::ErrMissingField("proof.challenge_id"))
    );
    let mut req = origin_request();
    req.challenge_id = "challenge-001".to_string();
    assert_eq!(
        prepare_origin(&req, "origin:", false, Some("effort".to_string())).err(),
        Some(AuthxError::ErrInvalidOrigin(
            "challenge id does not match the required origin prefix".to_string()
        ))
    );
    let req = origin_request();
    assert_eq!(
        prepare_origin(&req, "origin:", false, Some("insufficient effort score: 0.5 < 0.75".to_string()))
            .err(),
        Some(AuthxError::ErrInvalidOrigin("insufficient effort score: 0.5 < 0.75".to_string()))
    );
}

#[test]
fn origin_requires_a_proof_payload() {
    let mut req = origin_request();
    req.proof_material = String::new();
    assert_eq!(
        prepare_origin(&req, "origin:", false, None).err(),
        Some(AuthxError::ErrMissingField("proof.proof_material"))
    );
    // An override in force replaces the empty payload.
    req.proof_material_override = Some("override".to_string());
    assert!(prepare_origin(&req, "origin:", false, None).is_ok());
    let mut req = origin_request();
    req.proof_material_override = Some(String::new());
    assert_eq!(
        prepare_origin(&req, "origin:", false, None).err(),
        Some(AuthxError::ErrMissingField("proof.proof_material"))
    );
    // White space is a payload.
    let mut req = origin_request();
    req.proof_material = " ".to_string();
    assert!(prepare_origin(&req, "origin:", false, None).is_ok());
}

#[test]
fn zero_vector_refusal_precedes_the_payload_check() {
    let mut req = origin_request();
    req.vector = VectorState::zero();
    req.proof_material = String::new();
    assert_eq!(
        prepare_origin(&req, "origin:", false, None).err(),
        Some(AuthxError::ErrInvalidOrigin("zero-vector origin is not allowed by policy".to_string()))
    );
    assert_eq!(
        prepare_origin(&req, "origin:", true, None).err(),
        Some(AuthxError::ErrMissingField("proof.proof_material"))
    );
}

#[test]
fn origin_needs_a_certification_pass() {
    assert_eq!(require_origin_certification(true), Ok(()));
    assert_eq!(
        require_origin_certification(false),
        Err(AuthxError::ErrUncertified("origin vector did not pass certification".to_string()))
    );
}

#[test]
fn error_messages() {
    assert_eq!(
        AuthxError::ErrInvalidOrigin("bad".to_string()).message(),
        "invalid origin: bad"
    );
    assert_eq!(AuthxError::ErrMissingField("origin_id").message(), "missing field: origin_id");
    assert_eq!(AuthxError::ErrZeroVectorNormalization.message(), "zero vector cannot be normalized");
    assert_eq!(
        AuthxError::ErrRevalidationBlocked("x".to_string()).message(),
        "revalidation blocked: x"
    );
    assert_eq!(AuthxError::ErrAuthFailed(String::new()).message(), "authentication failed: ");
}

#[test]
fn zero_vector_origin_depends_on_policy() {
    let mut req = origin_request();
    req.vector = VectorState::from_pairs(vec![("alpha".to_string(), 0)]);
    assert_eq!(
        prepare_origin(&req, "origin:", false, None).err(),
        Some(AuthxError::ErrInvalidOrigin("zero-vector origin is not allowed by policy".to_string()))
    );
    assert!(prepare_origin(&req, "origin:", true, None).is_ok());
}

#[test]
fn same_components_same_event_hash() {
    let v = VectorState::from_pairs(vec![("beta".to_string(), 40), ("alpha".to_string(), 60)]);
    let w = VectorState::new(vec![("alpha".to_string(), 1), ("beta".to_string(), 40), ("alpha".to_string(), 60)]);
    assert_eq!(v.magnitude(), w.magnitude());
    let hash = |x: &VectorState| {
        vector_event_hash("e", &[], "r", "en", "DRAIN", "0.5", false, 3, 4, &VectorState::zero(), x, "p")
    };
    assert_eq!(hash(&v), hash(&w));
    assert_ne!(hash(&v), hash(&VectorState::zero()));
}

#[test]
fn absolute_drain_checks() {
    assert_eq!(check_absolute_drain(0, 0), Ok(AbsoluteDrain::Nothing));
    assert_eq!(check_absolute_drain(0, 100), Ok(AbsoluteDrain::Nothing));
    assert_eq!(check_absolute_drain(100, 100), Ok(AbsoluteDrain::Within));
    assert_eq!(
        check_absolute_drain(101, 100),
        Err(AuthxError::ErrInvalidDrain("absolute drain exceeds magnitude".to_string()))
    );
    assert_eq!(retained_amount(100, 25), 75);
    assert_eq!(retained_amount(100, 250), 0);
}
