//! v-authx: authentication, certification, origin and record core for
//! Vector Network, with its decisions stated in contracts and proved.
//!
//! Vector balances, the stable record hash, event hashes and signature
//! payloads, the certification state machine and the origin gate live
//! here. AuthRatio scores are real numbers and are computed by the scoring
//! layer that builds on this crate.

pub mod auth_ratio;
pub mod certification;
pub mod entries;
pub mod drain;
pub mod error;
pub mod laws;
pub mod origin;
pub mod prelude;
pub mod record;
pub mod text;
pub mod types;
pub mod vector;

pub use auth_ratio::{magnitude_grade, MagnitudeGrade};
pub use certification::{
    certification_event_id, certification_gate, certification_reason, resolve_certification_state,
};
pub use drain::{check_absolute_drain, retained_amount, AbsoluteDrain};
pub use error::AuthxError;
pub use origin::{origin_hash, prepare_origin, require_origin_certification, OriginDraft, OriginRequest};
pub use record::{hash_record_fields, stable_hash_hex, vector_event_hash, vector_signature_payload};
pub use types::{
    risk_level, CanonicalVector, CertificationState, EvaluationContext, OperationClass, RiskLevel,
    VectorType, WalletState,
};
pub use vector::VectorState;
