use v_authx::{AuthxError, VectorState};

fn pairs(items: &[(&str, u128)]) -> Vec<(String, u128)> {
    items.iter().map(|(k, v)| (k.to_string(), *v)).collect()
}

fn sample_vector() -> VectorState {
    VectorState::from_pairs(pairs(&[("alpha", 60), ("beta", 40)]))
}

fn entries(v: &VectorState) -> Vec<(String, u128)> {
    v.components().clone()
}

#[test]
fn from_pairs_orders_and_replaces() {
    let v = VectorState::from_pairs(pairs(&[("beta", 1), ("alpha", 2), ("beta", 5), ("Zeta", 3)]));
    assert_eq!(entries(&v), pairs(&[("Zeta", 3), ("alpha", 2), ("beta", 5)]));
}

#[test]
fn new_keeps_canonical_input() {
    let input = pairs(&[("alpha", 60), ("beta", 40)]);
    let v = VectorState::new(input.clone());
    assert_eq!(entries(&v), input);
    let unordered = VectorState::new(pairs(&[("b", 1), ("a", 2)]));
    assert_eq!(entries(&unordered), pairs(&[("a", 2), ("b", 1)]));
}

#[test]
fn key_order_is_byte_order() {
    // 'é' encodes as 0xC3 0xA9, after every ASCII byte.
    let v = VectorState::from_pairs(pairs(&[("é", 1), ("z", 2), ("a", 3), ("ab", 4)]));
    assert_eq!(entries(&v), pairs(&[("a", 3), ("ab", 4), ("z", 2), ("é", 1)]));
}

#[test]
fn magnitude_sums_components() {
    let v = sample_vector();
    assert_eq!(v.magnitude(), 100);
    assert_eq!(v.checked_magnitude(), Some(100));
    assert_eq!(VectorState::zero().magnitude(), 0);
}

#[test]
fn checked_magnitude_detects_overflow() {
    let v = VectorState::from_pairs(pairs(&[("a", u128::MAX), ("b", 1)]));
    assert_eq!(v.checked_magnitude(), None);
}

#[test]
fn zero_vector_detection() {
    assert!(VectorState::zero().is_zero());
    assert!(VectorState::from_pairs(pairs(&[("a", 0), ("b", 0)])).is_zero());
    assert!(!sample_vector().is_zero());
}

#[test]
fn blank_keys_are_rejected() {
    assert_eq!(sample_vector().validate_nonnegative(), Ok(()));
    let v = VectorState::from_pairs(pairs(&[(" \t", 1), ("alpha", 2)]));
    assert_eq!(
        v.validate_nonnegative(),
        Err(AuthxError::ErrInvalidInput("component keys must be non-empty".to_string()))
    );
    let empty_key = VectorState::from_pairs(pairs(&[("", 1)]));
    assert!(empty_key.validate_nonnegative().is_err());
    let nbsp = VectorState::from_pairs(pairs(&[("\u{a0}\u{3000}", 1)]));
    assert!(nbsp.validate_nonnegative().is_err());
}

#[test]
fn add_assign_merges_and_saturates() {
    let mut v = sample_vector();
    v.add_assign(&VectorState::from_pairs(pairs(&[("beta", 5), ("gamma", 7)])));
    assert_eq!(entries(&v), pairs(&[("alpha", 60), ("beta", 45), ("gamma", 7)]));
    let mut big = VectorState::from_pairs(pairs(&[("a", u128::MAX - 1)]));
    big.add_assign(&VectorState::from_pairs(pairs(&[("a", 10)])));
    assert_eq!(entries(&big), pairs(&[("a", u128::MAX)]));
}

#[test]
fn sub_assign_subtracts_and_drops_zeros() {
    let mut v = sample_vector();
    assert_eq!(v.sub_assign(&VectorState::from_pairs(pairs(&[("alpha", 60), ("beta", 15)]))), Ok(()));
    assert_eq!(entries(&v), pairs(&[("beta", 25)]));
}

#[test]
fn sub_assign_missing_component() {
    let mut v = sample_vector();
    let r = v.sub_assign(&VectorState::from_pairs(pairs(&[("alpha", 10), ("delta", 1)])));
    assert_eq!(
        r,
        Err(AuthxError::ErrInvalidState("component delta missing in subtraction".to_string()))
    );
    // A refused subtraction changes nothing.
    assert_eq!(entries(&v), pairs(&[("alpha", 60), ("beta", 40)]));
}

#[test]
fn sub_assign_would_go_negative() {
    let mut v = sample_vector();
    let r = v.sub_assign(&VectorState::from_pairs(pairs(&[("alpha", 61)])));
    assert_eq!(
        r,
        Err(AuthxError::ErrInvalidState("component alpha would become negative".to_string()))
    );
    assert_eq!(entries(&v), pairs(&[("alpha", 60), ("beta", 40)]));
}

#[test]
fn refused_subtraction_changes_nothing() {
    let mut v = VectorState::from_pairs(pairs(&[("a", 5), ("b", 1)]));
    let r = v.sub_assign(&VectorState::from_pairs(pairs(&[("a", 5), ("b", 2)])));
    assert_eq!(r, Err(AuthxError::ErrInvalidState("component b would become negative".to_string())));
    assert_eq!(entries(&v), pairs(&[("a", 5), ("b", 1)]));
}

#[test]
fn add_then_sub_restores() {
    let original = VectorState::from_pairs(pairs(&[("alpha", 60), ("beta", 40), ("zero", 0)]));
    let other = VectorState::from_pairs(pairs(&[("beta", 3), ("omega", 9)]));
    let mut v = original.clone();
    v.add_assign(&other);
    assert_eq!(v.sub_assign(&other), Ok(()));
    assert_eq!(entries(&v), pairs(&[("alpha", 60), ("beta", 40)]));
}

#[test]
fn add_and_sub_change_magnitude_by_the_other() {
    let mut v = sample_vector();
    let other = VectorState::from_pairs(pairs(&[("alpha", 5), ("gamma", 5)]));
    v.add_assign(&other);
    assert_eq!(v.magnitude(), 110);
    assert_eq!(v.sub_assign(&other), Ok(()));
    assert_eq!(v.magnitude(), 100);
}

#[test]
fn zero_is_neutral_for_addition() {
    let mut v = sample_vector();
    v.add_assign(&VectorState::zero());
    assert_eq!(entries(&v), entries(&sample_vector()));
    let mut z = VectorState::zero();
    z.add_assign(&sample_vector());
    assert_eq!(entries(&z), entries(&sample_vector()));
}

#[test]
fn zero_iff_no_magnitude() {
    let v = VectorState::from_pairs(pairs(&[("a", 0)]));
    assert!(v.is_zero());
    assert_eq!(v.magnitude(), 0);
    let w = sample_vector();
    assert!(!w.is_zero());
    assert_ne!(w.magnitude(), 0);
}

#[test]
fn clone_keeps_components() {
    let v = sample_vector();
    let c = v.clone();
    assert_eq!(entries(&c), entries(&v));
    assert_eq!(c, v);
}
