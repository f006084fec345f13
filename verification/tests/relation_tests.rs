use r1cs::assignment::Assignment;
use r1cs::circuit::Circuit;
use r1cs::circuit::ProverInput;
use r1cs::circuit_proof::ConstraintSystem;
use r1cs::generators::PedersenGens;
use r1cs::linear_combination::LinearCombination;
use r1cs::scalar::Scalar;
use r1cs::variable::Variable;

fn s(x: u64) -> Scalar {
    Scalar::from_u64(x)
}

fn value(x: u64) -> Assignment {
    Assignment::HasValue(s(x))
}

fn inner_product(a: &[Scalar], b: &[Scalar]) -> Scalar {
    assert_eq!(a.len(), b.len());
    a.iter().zip(b).fold(Scalar::zero(), |sum, (x, y)| sum + *x * *y)
}

// W_L a_L + W_R a_R + W_O a_O = W_V v + c, row by row
fn circuit_holds(circuit: &Circuit, input: &ProverInput) -> bool {
    (0..circuit.q).all(|i| {
        inner_product(&circuit.W_L[i], &input.a_L)
            + inner_product(&circuit.W_R[i], &input.a_R)
            + inner_product(&circuit.W_O[i], &input.a_O)
            == inner_product(&circuit.W_V[i], &input.v) + circuit.c[i]
    })
}

fn gates_hold(input: &ProverInput) -> bool {
    (0..input.a_L.len()).all(|k| input.a_L[k] * input.a_R[k] == input.a_O[k])
}

// Three gates and two committed wires, with constraints that use every
// class of wire, duplicate terms and constants:
//   a_L[0] + a_R[1] - a_O[2] + 2 v[0] - 2 v[0] + v[1] + (c - 5) + 5 = 0
//   3 a_O[0] - v[0] = 0
fn system(v1: u64, constant: Scalar) -> ConstraintSystem {
    let mut cs = ConstraintSystem::new();
    let (l0, _, o0) = cs.assign_a(value(2), value(3), value(6)).unwrap();
    let (_, r1, _) = cs.assign_a(value(4), value(5), value(20)).unwrap();
    let (_, _, o2) = cs.assign_a(value(6), value(7), value(42)).unwrap();
    let v0 = cs.assign_v(value(18));
    let v1 = cs.assign_v(value(v1));
    cs.constrain(LinearCombination::from_terms(vec![
        (l0, s(1)),
        (r1, s(1)),
        (Variable::One(), constant - s(5)),
        (o2, -s(1)),
        (v0, s(2)),
        (v1, s(1)),
        (v0, -s(2)),
        (Variable::One(), s(5)),
    ]));
    cs.constrain(LinearCombination::new(vec![(o0, s(3)), (v0, -s(1))], Scalar::zero()));
    cs
}

fn finalize(cs: ConstraintSystem) -> (Circuit, ProverInput) {
    let gens = PedersenGens::default();
    let (circuit, input, _) = cs.create_proof_input(&gens, vec![s(1), s(2)]);
    (circuit, input.unwrap())
}

#[test]
fn satisfied_system_satisfies_its_circuit() {
    // 2 + 5 - 42 + 30 + 5 = 0
    let cs = system(30, s(5));
    assert_eq!(cs.is_satisfied(), Some(true));
    let (circuit, input) = finalize(cs);
    assert_eq!(circuit.n, 4);
    assert!(gates_hold(&input));
    assert!(circuit_holds(&circuit, &input));

    // 2 + 5 - 42 + 0 + 35 = 0
    let cs = system(0, s(35));
    assert_eq!(cs.is_satisfied(), Some(true));
    let (circuit, input) = finalize(cs);
    assert!(circuit_holds(&circuit, &input));
}

#[test]
fn unsatisfied_system_does_not_satisfy_its_circuit() {
    let cs = system(31, s(5));
    assert_eq!(cs.is_satisfied(), Some(false));
    let (circuit, input) = finalize(cs);
    assert!(gates_hold(&input));
    assert!(!circuit_holds(&circuit, &input));

    let cs = system(30, s(6));
    assert_eq!(cs.is_satisfied(), Some(false));
    let (circuit, input) = finalize(cs);
    assert!(!circuit_holds(&circuit, &input));
}

#[test]
fn gates_of_a_finalized_system_hold() {
    let mut cs = ConstraintSystem::new();
    assert!(cs.assign_a(value(3), value(4), value(10)).is_err());
    cs.assign_a(value(3), value(4), value(12)).unwrap();
    cs.assign_a(value(0), value(9), value(0)).unwrap();
    cs.assign_a(value(5), value(5), value(25)).unwrap();
    assert_eq!(cs.is_satisfied(), Some(true));
    let gens = PedersenGens::default();
    let (circuit, input, _) = cs.create_proof_input(&gens, vec![]);
    let input = input.unwrap();
    assert_eq!(input.a_L.len(), 4);
    assert!(circuit_holds(&circuit, &input));
    assert!(gates_hold(&input));
}

#[test]
fn constraints_in_range_of_the_allocated_wires() {
    let lc = LinearCombination::from_terms(vec![
        (Variable::MultiplierLeft(1), s(1)),
        (Variable::Committed(0), s(1)),
        (Variable::One(), s(1)),
    ]);
    assert!(lc.is_in_range(2, 1));
    assert!(lc.is_in_range(5, 5));
    assert!(!lc.is_in_range(1, 1));
    assert!(!lc.is_in_range(2, 0));
    assert!(LinearCombination::zero().is_in_range(0, 0));
    assert!(Variable::One().is_in_range(0, 0));
    assert!(!Variable::MultiplierOutput(0).is_in_range(0, 7));
    assert!(Variable::MultiplierRight(6).is_in_range(7, 0));
}
