use r1cs::assignment::Assignment;
use r1cs::scalar::Scalar;

fn value(x: u64) -> Assignment {
    Assignment::HasValue(Scalar::from_u64(x))
}

fn scalar_of(a: Assignment) -> Option<Scalar> {
    match a {
        Assignment::HasValue(s) => Some(s),
        Assignment::Missing => None,
    }
}

#[test]
fn assignment_arithmetic_on_values() {
    assert_eq!(scalar_of(value(3) + value(4)), Some(Scalar::from_u64(7)));
    assert_eq!(scalar_of(value(7) - value(4)), Some(Scalar::from_u64(3)));
    assert_eq!(scalar_of(value(3) * value(4)), Some(Scalar::from_u64(12)));
    assert_eq!(scalar_of(-value(3)), Some(-Scalar::from_u64(3)));
    assert_eq!(scalar_of(value(3) + Scalar::from_u64(4)), Some(Scalar::from_u64(7)));
    assert_eq!(scalar_of(value(7) - Scalar::from_u64(4)), Some(Scalar::from_u64(3)));
    assert_eq!(scalar_of(value(3) * Scalar::from_u64(4)), Some(Scalar::from_u64(12)));
}

#[test]
fn missing_assignment_absorbs() {
    let missing = Assignment::Missing;
    let operands = [value(0), value(1), value(5), missing];
    for x in operands {
        assert!((missing + x).is_missing());
        assert!((x + missing).is_missing());
        assert!((missing - x).is_missing());
        assert!((x - missing).is_missing());
        assert!((missing * x).is_missing());
        assert!((x * missing).is_missing());
    }
    assert!((-missing).is_missing());
    assert!((missing + Scalar::from_u64(5)).is_missing());
    assert!((missing - Scalar::from_u64(5)).is_missing());
    assert!((missing * Scalar::from_u64(0)).is_missing());
    assert!(!(value(0) * value(0)).is_missing());
}

#[test]
fn assignment_equality_needs_both_values() {
    assert_eq!(value(5).eq_value(&value(5)), Some(true));
    assert_eq!(value(5).eq_value(&value(6)), Some(false));
    assert_eq!(value(5).eq_value(&Assignment::Missing), None);
    assert_eq!(Assignment::Missing.eq_value(&value(5)), None);
    assert_eq!(Assignment::Missing.eq_value(&Assignment::Missing), None);
}

#[test]
fn assignment_conversions() {
    assert_eq!(scalar_of(Assignment::from(Scalar::from_u64(9))), Some(Scalar::from_u64(9)));
    assert_eq!(scalar_of(Assignment::from(9u64)), Some(Scalar::from_u64(9)));
    assert!(Assignment::default().is_missing());
    assert!(!Assignment::from(0u64).is_missing());
    assert!(r1cs::circuit_proof::err_assignment().is_missing());
}
