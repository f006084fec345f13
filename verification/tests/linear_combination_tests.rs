use r1cs::linear_combination::LinearCombination;
use r1cs::scalar::Scalar;
use r1cs::variable::Variable;
use r1cs::variable::VariableType;

fn s(x: u64) -> Scalar {
    Scalar::from_u64(x)
}

#[test]
fn linear_combination_keeps_terms_as_written() {
    let lc = LinearCombination::new(
        vec![(Variable::Committed(0), s(2)), (Variable::MultiplierLeft(1), s(3))],
        s(7),
    );
    assert_eq!(
        lc.terms(),
        &vec![
            (Variable::Committed(0), s(2)),
            (Variable::MultiplierLeft(1), s(3)),
            (Variable::One(), s(7)),
        ]
    );
    assert_eq!(
        lc.get_variables(),
        vec![(Variable::Committed(0), s(2)), (Variable::MultiplierLeft(1), s(3))]
    );
    assert_eq!(lc.get_constant(), s(7));
}

#[test]
fn linear_combination_zero_has_no_terms() {
    assert!(LinearCombination::zero().terms().is_empty());
    assert!(LinearCombination::default().terms().is_empty());
    assert_eq!(LinearCombination::zero().get_constant(), Scalar::zero());
    assert!(LinearCombination::zero().get_variables().is_empty());
    assert_eq!(
        LinearCombination::zero().evaluate(&vec![], &vec![], &vec![], &vec![]),
        Scalar::zero()
    );
}

#[test]
fn linear_combination_constant_sums_terms_on_the_constant_wire() {
    let lc = LinearCombination::from_terms(vec![
        (Variable::One(), s(4)),
        (Variable::Committed(0), s(100)),
        (Variable::One(), s(5)),
        (Variable::One(), -s(10)),
    ]);
    assert_eq!(lc.get_constant(), -s(1));
    assert_eq!(lc.get_variables(), vec![(Variable::Committed(0), s(100))]);
}

#[test]
fn linear_combination_sum_concatenates() {
    let a = LinearCombination::from_terms(vec![(Variable::Committed(0), s(1))]);
    let b = LinearCombination::new(vec![(Variable::Committed(0), s(2))], s(3));
    let sum = a + b;
    assert_eq!(
        sum.terms(),
        &vec![
            (Variable::Committed(0), s(1)),
            (Variable::Committed(0), s(2)),
            (Variable::One(), s(3)),
        ]
    );
}

#[test]
fn linear_combination_scaling_and_negation() {
    let lc = LinearCombination::new(vec![(Variable::MultiplierOutput(2), s(5))], s(3));
    let scaled = lc.clone() * s(4);
    assert_eq!(
        scaled.terms(),
        &vec![(Variable::MultiplierOutput(2), s(20)), (Variable::One(), s(12))]
    );
    let negated = -lc;
    assert_eq!(
        negated.terms(),
        &vec![(Variable::MultiplierOutput(2), -s(5)), (Variable::One(), -s(3))]
    );
}

#[test]
fn linear_combination_value_on_wires() {
    // 2 * a_L[0] + 3 * a_R[0] - a_O[1] + 5 * v[0] + 7
    let lc = LinearCombination::new(
        vec![
            (Variable::MultiplierLeft(0), s(2)),
            (Variable::MultiplierRight(0), s(3)),
            (Variable::MultiplierOutput(1), -s(1)),
            (Variable::Committed(0), s(5)),
        ],
        s(7),
    );
    let a_l = vec![s(10), s(0)];
    let a_r = vec![s(20), s(0)];
    let a_o = vec![s(200), s(6)];
    let v = vec![s(11)];
    // 20 + 60 - 6 + 55 + 7
    assert_eq!(lc.evaluate(&a_l, &a_r, &a_o, &v), s(136));
    let cancels = LinearCombination::new(vec![(Variable::Committed(0), s(1))], -s(11));
    assert_eq!(cancels.evaluate(&a_l, &a_r, &a_o, &v), Scalar::zero());
}

#[test]
fn variable_of_class_and_index() {
    assert_eq!(Variable::new(VariableType::v, 3), Variable::Committed(3));
    assert_eq!(Variable::new(VariableType::aL, 0), Variable::MultiplierLeft(0));
    assert_eq!(Variable::new(VariableType::aR, 1), Variable::MultiplierRight(1));
    assert_eq!(Variable::new(VariableType::aO, 2), Variable::MultiplierOutput(2));
    assert_ne!(Variable::MultiplierLeft(0), Variable::MultiplierRight(0));
    assert_ne!(Variable::Committed(0), Variable::One());
    assert_eq!(Variable::One(), Variable::One());
}
