//! The integer part of AuthRatio scoring: how a vector's magnitude grades
//! against optional bounds and its vector type.
use vstd::prelude::*;

use crate::error::AuthxError;
use crate::types::VectorType;

verus! {

/// How a vector's magnitude grades; the scoring layer reads `Outside` as
/// 0, `UnexpectedZero` as one half and `Valid` as 1.
#[derive(Debug, Clone, Copy, PartialEq, Eq, Structural)]
pub enum MagnitudeGrade {
    /// The magnitude lies outside the given bounds.
    Outside,
    /// The magnitude is zero but the vector type is not `Zero`.
    UnexpectedZero,
    /// The magnitude is acceptable.
    Valid,
}

/// The grade of a magnitude, for bounds that are not inverted.
pub open spec fn grade_of(magnitude: u128, bounds: Option<(u128, u128)>, vector_type: VectorType) -> MagnitudeGrade {
    if bounds matches Some((min, max)) && (magnitude < min || magnitude > max) {
        MagnitudeGrade::Outside
    } else if magnitude == 0 && vector_type != VectorType::Zero {
        MagnitudeGrade::UnexpectedZero
    } else {
        MagnitudeGrade::Valid
    }
}

/// No bounds are given, or they are ordered and hold the magnitude.
pub open spec fn in_bounds(magnitude: u128, bounds: Option<(u128, u128)>) -> bool {
    match bounds {
        None => true,
        Some((min, max)) => min <= magnitude && magnitude <= max,
    }
}

/// The message of inverted bounds.
pub open spec fn inverted_bounds_message() -> Seq<char> {
    "magnitude bounds are inverted"@
}

/// Grades a magnitude against optional inclusive bounds `(min, max)`: a
/// magnitude outside them grades `Outside`; a zero magnitude is `Valid`
/// only for the `Zero` vector type. Inverted bounds are an error.
pub fn magnitude_grade(
    magnitude: u128,
    bounds: Option<(u128, u128)>,
    vector_type: VectorType,
) -> (r: Result<MagnitudeGrade, AuthxError>)
    ensures
        r is Err <==> (bounds matches Some((min, max)) && min > max),
        r matches Err(e) ==> e matches AuthxError::ErrInvalidInput(m) && m@
            == inverted_bounds_message(),
        r matches Ok(g) ==> g == grade_of(magnitude, bounds, vector_type),
        bounds matches Some((min, max)) && min <= max && (magnitude < min || magnitude > max)
            ==> r == Ok::<MagnitudeGrade, AuthxError>(MagnitudeGrade::Outside),
        in_bounds(magnitude, bounds) && magnitude == 0 && vector_type != VectorType::Zero ==> r
            == Ok::<MagnitudeGrade, AuthxError>(MagnitudeGrade::UnexpectedZero),
        in_bounds(magnitude, bounds) && (magnitude > 0 || vector_type == VectorType::Zero) ==> r
            == Ok::<MagnitudeGrade, AuthxError>(MagnitudeGrade::Valid),
{
    if let Some((min, max)) = bounds {
        if min > max {
            return Err(AuthxError::ErrInvalidInput("magnitude bounds are inverted".to_owned()));
        }
        if magnitude < min || magnitude > max {
            return Ok(MagnitudeGrade::Outside);
        }
    }
    if magnitude == 0 {
        return Ok(
            match vector_type {
                VectorType::Zero => MagnitudeGrade::Valid,
                _ => MagnitudeGrade::UnexpectedZero,
            },
        );
    }
    Ok(MagnitudeGrade::Valid)
}

} // verus!
