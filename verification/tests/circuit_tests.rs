use r1cs::circuit::checked_next_power_of_two;
use r1cs::circuit::checked_padded_len;
use r1cs::circuit::Circuit;
use r1cs::linear_combination::LinearCombination;
use r1cs::scalar::Scalar;
use r1cs::variable::Variable;

fn s(x: u64) -> Scalar {
    Scalar::from_u64(x)
}

#[test]
fn padded_length_is_zero_or_the_next_power_of_two() {
    assert_eq!(checked_padded_len(0), Some(0));
    assert_eq!(checked_padded_len(1), Some(1));
    assert_eq!(checked_padded_len(2), Some(2));
    assert_eq!(checked_padded_len(3), Some(4));
    assert_eq!(checked_padded_len(4), Some(4));
    assert_eq!(checked_padded_len(5), Some(8));
    assert_eq!(checked_padded_len(8), Some(8));
    assert_eq!(checked_padded_len(9), Some(16));
    assert_eq!(checked_padded_len(1000), Some(1024));
    assert_eq!(checked_padded_len(1024), Some(1024));
    assert_eq!(checked_padded_len(1025), Some(2048));
}

#[test]
fn padded_length_agrees_with_the_standard_library() {
    for n in 1usize..3000 {
        assert_eq!(checked_padded_len(n), Some(n.next_power_of_two()));
        assert_eq!(checked_next_power_of_two(n), n.checked_next_power_of_two());
    }
    assert_eq!(checked_next_power_of_two(0), Some(1));
}

#[test]
fn padded_length_at_the_limits_of_the_machine() {
    let top = 1usize << (usize::BITS - 1);
    assert_eq!(checked_padded_len(top), Some(top));
    assert_eq!(checked_padded_len(top - 1), Some(top));
    assert_eq!(checked_padded_len(top + 1), None);
    assert_eq!(checked_padded_len(usize::MAX), None);
}

#[test]
fn circuit_of_no_constraints() {
    let circuit = Circuit::assemble(&vec![], 0, 0);
    assert_eq!((circuit.n, circuit.m, circuit.q), (0, 0, 0));
    assert!(circuit.c.is_empty());
    assert!(circuit.W_L.is_empty());
    let circuit = Circuit::assemble(&vec![], 5, 2);
    assert_eq!((circuit.n, circuit.m, circuit.q), (8, 2, 0));
}

#[test]
fn circuit_sign_convention() {
    let constraints = vec![
        LinearCombination::from_terms(vec![(Variable::MultiplierLeft(1), s(5))]),
        LinearCombination::from_terms(vec![(Variable::MultiplierRight(0), s(6))]),
        LinearCombination::from_terms(vec![(Variable::MultiplierOutput(1), s(7))]),
        LinearCombination::from_terms(vec![(Variable::Committed(2), s(8))]),
        LinearCombination::from_terms(vec![(Variable::One(), s(9))]),
    ];
    let circuit = Circuit::assemble(&constraints, 2, 3);
    let z = Scalar::zero();
    assert_eq!((circuit.n, circuit.m, circuit.q), (2, 3, 5));
    assert_eq!(
        circuit.W_L,
        vec![vec![z, -s(5)], vec![z, z], vec![z, z], vec![z, z], vec![z, z]]
    );
    assert_eq!(
        circuit.W_R,
        vec![vec![z, z], vec![-s(6), z], vec![z, z], vec![z, z], vec![z, z]]
    );
    assert_eq!(
        circuit.W_O,
        vec![vec![z, z], vec![z, z], vec![z, -s(7)], vec![z, z], vec![z, z]]
    );
    assert_eq!(
        circuit.W_V,
        vec![
            vec![z, z, z],
            vec![z, z, z],
            vec![z, z, z],
            vec![z, z, s(8)],
            vec![z, z, z]
        ]
    );
    assert_eq!(circuit.c, vec![z, z, z, z, s(9)]);
}

#[test]
fn circuit_duplicate_terms_accumulate() {
    let constraints = vec![LinearCombination::from_terms(vec![
        (Variable::MultiplierLeft(0), s(5)),
        (Variable::Committed(0), s(1)),
        (Variable::MultiplierLeft(0), s(6)),
        (Variable::One(), s(2)),
        (Variable::Committed(0), s(10)),
        (Variable::One(), s(3)),
        (Variable::MultiplierOutput(0), s(4)),
        (Variable::MultiplierOutput(0), -s(4)),
    ])];
    let circuit = Circuit::assemble(&constraints, 1, 1);
    assert_eq!(circuit.W_L, vec![vec![-s(11)]]);
    assert_eq!(circuit.W_R, vec![vec![Scalar::zero()]]);
    assert_eq!(circuit.W_O, vec![vec![Scalar::zero()]]);
    assert_eq!(circuit.W_V, vec![vec![s(11)]]);
    assert_eq!(circuit.c, vec![s(5)]);
}

#[test]
fn circuit_pads_the_columns_of_the_gates() {
    let constraints = vec![LinearCombination::new(
        vec![
            (Variable::MultiplierLeft(0), s(1)),
            (Variable::MultiplierRight(1), s(2)),
            (Variable::MultiplierOutput(2), s(3)),
        ],
        s(4),
    )];
    let circuit = Circuit::assemble(&constraints, 3, 0);
    let z = Scalar::zero();
    assert_eq!(circuit.n, 4);
    assert_eq!(circuit.W_L, vec![vec![-s(1), z, z, z]]);
    assert_eq!(circuit.W_R, vec![vec![z, -s(2), z, z]]);
    assert_eq!(circuit.W_O, vec![vec![z, z, -s(3), z]]);
    assert_eq!(circuit.W_V, vec![Vec::<Scalar>::new()]);
    assert_eq!(circuit.c, vec![s(4)]);
}
