//! The items application code uses most.

pub use crate::auth_ratio::{magnitude_grade, MagnitudeGrade};
pub use crate::certification::{certification_gate, resolve_certification_state};
pub use crate::error::AuthxError;
pub use crate::origin::{origin_hash, prepare_origin, OriginDraft, OriginRequest};
pub use crate::record::{stable_hash_hex, vector_event_hash, vector_signature_payload};
pub use crate::types::{
    CanonicalVector, CertificationState, EvaluationContext, OperationClass, VectorType,
    WalletState,
};
pub use crate::vector::VectorState;
