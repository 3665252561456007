//! The protocol's data model: vector types, operation classes,
//! certification states, canonical vectors, wallets and evaluation contexts.
use vstd::prelude::*;

use crate::vector::VectorState;
use crate::text::{ascii_lower_eq, lower_equals};

verus! {

/// Canonical vector type tags (`tau` in the blueprint).
#[derive(Debug, Clone, Copy, PartialEq, Eq, PartialOrd, Ord, Hash, Structural)]
pub enum VectorType {
    Position,
    Free,
    Bound,
    Unit,
    Zero,
    Spatial,
}

/// Operation classes of the protocol.
#[derive(Debug, Clone, Copy, PartialEq, Eq, PartialOrd, Ord, Hash, Structural)]
pub enum OperationClass {
    Create,
    Certify,
    Transfer,
    Drain,
    Project,
    Reconstruct,
    Query,
    Record,
    Move,
    Rotate,
    Scale,
    Normalize,
    Constrain,
}

/// Certification states.
#[derive(Debug, Clone, Copy, PartialEq, Eq, Structural)]
pub enum CertificationState {
    Pending,
    Certified,
    Uncertified,
    Suspended,
    Revoked,
}

/// Wallet envelope: no private key is held in network state.
///
/// `wallet_meta` holds key/value pairs as its owner lists them; the field is
/// public and no order or uniqueness of keys is enforced on it.
#[derive(Debug, Clone, PartialEq, Eq)]
pub struct WalletState {
    pub wallet_id: String,
    pub pk: String,
    pub wallet_meta: Vec<(String, String)>,
}

/// The canonical vector object used by certification and operations.
///
/// `meta` holds key/value pairs. `prepare_origin` builds it with distinct keys
/// in ascending order (its contract states the exact pairs); the field is
/// public, and no order or uniqueness is enforced on values built elsewhere.
#[derive(Debug, Clone, PartialEq, Eq)]
pub struct CanonicalVector {
    pub v: VectorState,
    pub pk: String,
    pub tau: VectorType,
    pub meta: Vec<(String, String)>,
}

impl CanonicalVector {
    /// A canonical vector with no metadata.
    pub fn new(v: VectorState, pk: String, tau: VectorType) -> (r: Self)
        ensures
            r.v == v,
            r.pk == pk,
            r.tau == tau,
            r.meta@.len() == 0,
    {
        CanonicalVector { v, pk, tau, meta: Vec::new() }
    }
}

/// Context for threshold selection and factor evaluation.
#[derive(Debug, Clone, PartialEq, Eq)]
pub struct EvaluationContext {
    pub vector_type: VectorType,
    pub operation_class: OperationClass,
    pub space_policy: String,
    pub risk_profile: String,
    pub protocol_version: String,
}

/// The risk classes that a context's risk profile names.
#[derive(Debug, Clone, Copy, PartialEq, Eq, Structural)]
pub enum RiskLevel {
    Low,
    Medium,
    High,
    Critical,
    /// Any other profile.
    Unlisted,
}

/// The risk class of a profile name, ignoring ASCII case.
pub open spec fn risk_level_of(profile: Seq<char>) -> RiskLevel {
    if ascii_lower_eq(profile, "low"@) {
        RiskLevel::Low
    } else if ascii_lower_eq(profile, "medium"@) {
        RiskLevel::Medium
    } else if ascii_lower_eq(profile, "high"@) {
        RiskLevel::High
    } else if ascii_lower_eq(profile, "critical"@) {
        RiskLevel::Critical
    } else {
        RiskLevel::Unlisted
    }
}

/// A profile matches at most one of the listed risk names (they differ in length).
pub proof fn lemma_risk_names_distinct(profile: Seq<char>)
    ensures
        ascii_lower_eq(profile, "low"@) ==> !ascii_lower_eq(profile, "medium"@) && !ascii_lower_eq(
            profile,
            "high"@,
        ) && !ascii_lower_eq(profile, "critical"@),
        ascii_lower_eq(profile, "medium"@) ==> !ascii_lower_eq(profile, "high"@) && !ascii_lower_eq(
            profile,
            "critical"@,
        ),
        ascii_lower_eq(profile, "high"@) ==> !ascii_lower_eq(profile, "critical"@),
{
    reveal_strlit("low");
    reveal_strlit("medium");
    reveal_strlit("high");
    reveal_strlit("critical");
}

/// Classifies a risk profile name (`low`, `medium`, `high`, `critical`, in
/// any ASCII case; anything else is unlisted).
pub fn risk_level(profile: &str) -> (r: RiskLevel)
    ensures
        r == risk_level_of(profile@),
        ascii_lower_eq(profile@, "low"@) ==> r == RiskLevel::Low,
        ascii_lower_eq(profile@, "medium"@) ==> r == RiskLevel::Medium,
        ascii_lower_eq(profile@, "high"@) ==> r == RiskLevel::High,
        ascii_lower_eq(profile@, "critical"@) ==> r == RiskLevel::Critical,
{
    proof {
        lemma_risk_names_distinct(profile@);
    }
    if lower_equals(profile, "low") {
        RiskLevel::Low
    } else if lower_equals(profile, "medium") {
        RiskLevel::Medium
    } else if lower_equals(profile, "high") {
        RiskLevel::High
    } else if lower_equals(profile, "critical") {
        RiskLevel::Critical
    } else {
        RiskLevel::Unlisted
    }
}

} // verus!
