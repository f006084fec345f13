use merlin::Transcript;
use r1cs::assignment::Assignment;
use r1cs::circuit::Circuit;
use r1cs::constraint_system::ConstraintSystem;
use r1cs::errors::R1CSError;
use r1cs::generators::CompressedRistretto;
use r1cs::generators::PedersenGens;
use r1cs::linear_combination::LinearCombination;
use r1cs::prover_cs::ProverCS;
use r1cs::scalar::Scalar;
use r1cs::variable::Variable;
use r1cs::verifier_cs::VerifierCS;

fn s(x: u64) -> Scalar {
    Scalar::from_u64(x)
}

fn scalars(values: &[u64]) -> Vec<Scalar> {
    values.iter().map(|x| Scalar::from_u64(*x)).collect()
}

fn known(values: &[u64]) -> Vec<Assignment> {
    values.iter().map(|x| Assignment::from(*x)).collect()
}

fn missing(len: usize) -> Vec<Assignment> {
    vec![Assignment::Missing; len]
}

// One multiplication gate per triple of assignments, with no constraints.
fn gates<CS: ConstraintSystem>(cs: &mut CS, wires: &[Assignment]) -> Result<(), R1CSError> {
    for gate in wires.chunks(3) {
        cs.assign_multiplier(gate[0], gate[1], gate[2])?;
    }
    Ok(())
}

// a_L = a_coeff * v_a, a_R = b_coeff * v_b, a_O = v_c
fn tie_gadget<CS: ConstraintSystem>(
    cs: &mut CS,
    committed: &[Variable],
    wires: &[Assignment],
    a_coeff: u64,
    b_coeff: u64,
) -> Result<(), R1CSError> {
    let (a_l, a_r, a_o) = cs.assign_multiplier(wires[0], wires[1], wires[2])?;
    cs.add_constraint(LinearCombination::from_terms(vec![
        (a_l, s(1)),
        (committed[0], -s(a_coeff)),
    ]));
    cs.add_constraint(LinearCombination::from_terms(vec![
        (a_r, s(1)),
        (committed[1], -s(b_coeff)),
    ]));
    cs.add_constraint(LinearCombination::from_terms(vec![(a_o, s(1)), (committed[2], -s(1))]));
    Ok(())
}

// v_a + v_b - v_c = 0
fn sum_gadget<CS: ConstraintSystem>(cs: &mut CS, committed: &[Variable]) {
    cs.add_constraint(LinearCombination::from_terms(vec![
        (committed[0], s(1)),
        (committed[1], s(1)),
        (committed[2], -s(1)),
    ]));
}

// (v_0 + v_1) * (v_2 + v_3) = v_4 + v_5
fn mixed_gadget<CS: ConstraintSystem>(
    cs: &mut CS,
    committed: &[Variable],
    wires: &[Assignment],
) -> Result<(), R1CSError> {
    let (a_l, a_r, a_o) = cs.assign_multiplier(wires[0], wires[1], wires[2])?;
    let one = s(1);
    cs.add_constraint(LinearCombination::from_terms(vec![
        (a_l, -one),
        (committed[0], one),
        (committed[1], one),
    ]));
    cs.add_constraint(LinearCombination::from_terms(vec![
        (a_r, -one),
        (committed[2], one),
        (committed[3], one),
    ]));
    cs.add_constraint(LinearCombination::from_terms(vec![
        (a_o, -one),
        (committed[4], one),
        (committed[5], one),
    ]));
    Ok(())
}

struct Run {
    satisfied: bool,
    prover_circuit: Circuit,
    verifier_circuit: Circuit,
    a_l: Vec<Scalar>,
    a_r: Vec<Scalar>,
    a_o: Vec<Scalar>,
}

// Runs the three gadgets on both sides over the committed values `v`, and
// finalizes both.
fn run(v: &[u64], tie: Option<(&[u64], u64, u64)>, sum: bool, mixed: Option<&[u64]>) -> Run {
    let gens = PedersenGens::default();
    let blindings = scalars(&vec![11; v.len()]);

    let mut prover_transcript = Transcript::new(b"R1CSTest");
    let (mut prover, variables, commitments) =
        ProverCS::new(128, &gens, &mut prover_transcript, scalars(v), blindings).unwrap();
    if let Some((wires, a, b)) = tie {
        tie_gadget(&mut prover, &variables, &known(wires), a, b).unwrap();
    }
    if sum {
        sum_gadget(&mut prover, &variables);
    }
    if let Some(wires) = mixed {
        mixed_gadget(&mut prover, &variables, &known(wires)).unwrap();
    }
    let satisfied = prover.is_satisfied() == Some(true);
    let (prover_out, _) = prover.create_proof_input();
    let (prover_circuit, prover_input) = prover_out.unwrap();
    assert_eq!(prover_input.v, scalars(v));
    assert_eq!(prover_input.v_blinding, scalars(&vec![11; v.len()]));

    let mut verifier_transcript = Transcript::new(b"R1CSTest");
    let (mut verifier, variables) =
        VerifierCS::new(128, &mut verifier_transcript, commitments.clone());
    if tie.is_some() {
        let (_, a, b) = tie.unwrap();
        tie_gadget(&mut verifier, &variables, &missing(3), a, b).unwrap();
    }
    if sum {
        sum_gadget(&mut verifier, &variables);
    }
    if mixed.is_some() {
        mixed_gadget(&mut verifier, &variables, &missing(3)).unwrap();
    }
    let (verifier_out, _) = verifier.create_proof_input();
    let (verifier_circuit, verifier_input) = verifier_out.unwrap();
    assert_eq!(verifier_input.V, commitments);

    Run {
        satisfied,
        prover_circuit,
        verifier_circuit,
        a_l: prover_input.a_L,
        a_r: prover_input.a_R,
        a_o: prover_input.a_O,
    }
}

#[test]
fn bare_multiplier() {
    let gens = PedersenGens::default();
    let mut prover_transcript = Transcript::new(b"R1CSTest");
    let (mut prover, variables, commitments) =
        ProverCS::new(1, &gens, &mut prover_transcript, vec![], vec![]).unwrap();
    assert!(variables.is_empty());
    assert!(commitments.is_empty());
    assert_eq!(
        prover.assign_multiplier(3u64.into(), 4u64.into(), 12u64.into()),
        Ok((
            Variable::MultiplierLeft(0),
            Variable::MultiplierRight(0),
            Variable::MultiplierOutput(0)
        ))
    );
    assert_eq!(prover.is_satisfied(), Some(true));
    let (out, _) = prover.create_proof_input();
    let (prover_circuit, input) = out.unwrap();
    assert_eq!(prover_circuit.n, 1);
    assert_eq!(prover_circuit.q, 0);
    assert_eq!(input.a_L, vec![s(3)]);
    assert_eq!(input.a_R, vec![s(4)]);
    assert_eq!(input.a_O, vec![s(12)]);

    let mut verifier_transcript = Transcript::new(b"R1CSTest");
    let (mut verifier, _) = VerifierCS::new(1, &mut verifier_transcript, vec![]);
    assert!(gates(&mut verifier, &missing(3)).is_ok());
    let (out, _) = verifier.create_proof_input();
    let (verifier_circuit, input) = out.unwrap();
    assert!(input.V.is_empty());
    assert_eq!(prover_circuit, verifier_circuit);
}

#[test]
fn bare_multiplier_mismatch_is_refused_by_the_prover() {
    let gens = PedersenGens::default();
    let mut transcript = Transcript::new(b"R1CSTest");
    let (mut prover, _, _) =
        ProverCS::new(4, &gens, &mut transcript, vec![], vec![]).unwrap();
    assert_eq!(
        prover.assign_multiplier(3u64.into(), 4u64.into(), 10u64.into()),
        Err(R1CSError::InvalidAssignment)
    );
    // Nothing was allocated: the next gate is the first.
    assert_eq!(
        prover.assign_multiplier(3u64.into(), 4u64.into(), 12u64.into()).map(|wires| wires.0),
        Ok(Variable::MultiplierLeft(0))
    );
    let (out, _) = prover.create_proof_input();
    assert_eq!(out.unwrap().0.n, 1);
}

#[test]
fn mixed_known_and_missing_assignments_are_refused() {
    let gens = PedersenGens::default();
    let mut prover_transcript = Transcript::new(b"R1CSTest");
    let (mut prover, _, _) =
        ProverCS::new(4, &gens, &mut prover_transcript, vec![], vec![]).unwrap();
    let mut verifier_transcript = Transcript::new(b"R1CSTest");
    let (mut verifier, _) = VerifierCS::new(4, &mut verifier_transcript, vec![]);
    let m = Assignment::Missing;
    let k = Assignment::from(0u64);
    for (left, right, out) in [(k, k, m), (k, m, k), (m, k, k), (k, m, m), (m, k, m), (m, m, k)] {
        assert_eq!(
            prover.assign_multiplier(left, right, out),
            Err(R1CSError::InvalidAssignment)
        );
        assert_eq!(
            verifier.assign_multiplier(left, right, out),
            Err(R1CSError::InvalidAssignment)
        );
    }
    assert_eq!(prover.assign_multiplier(m, m, m), Err(R1CSError::InvalidAssignment));
    assert_eq!(verifier.assign_multiplier(k, k, k), Err(R1CSError::InvalidAssignment));
    assert_eq!(prover.assign_uncommitted(k, m), Err(R1CSError::InvalidAssignment));
    assert_eq!(verifier.assign_uncommitted(k, m), Err(R1CSError::InvalidAssignment));
    assert_eq!(verifier.assign_uncommitted(k, k), Err(R1CSError::InvalidAssignment));
    assert!(prover.assign_multiplier(k, k, k).is_ok());
    assert!(verifier.assign_multiplier(m, m, m).is_ok());
}

#[test]
fn uncommitted_wires_share_one_gate() {
    let gens = PedersenGens::default();
    let mut prover_transcript = Transcript::new(b"R1CSTest");
    let (mut prover, _, _) =
        ProverCS::new(4, &gens, &mut prover_transcript, vec![], vec![]).unwrap();
    assert_eq!(
        prover.assign_uncommitted(6u64.into(), 7u64.into()),
        Ok((Variable::MultiplierLeft(0), Variable::MultiplierRight(0)))
    );
    assert_eq!(
        prover.assign_uncommitted(2u64.into(), 0u64.into()),
        Ok((Variable::MultiplierLeft(1), Variable::MultiplierRight(1)))
    );
    let (out, _) = prover.create_proof_input();
    let (circuit, input) = out.unwrap();
    assert_eq!(circuit.n, 2);
    assert_eq!(input.a_L, scalars(&[6, 2]));
    assert_eq!(input.a_R, scalars(&[7, 0]));
    assert_eq!(input.a_O, scalars(&[42, 0]));

    let mut verifier_transcript = Transcript::new(b"R1CSTest");
    let (mut verifier, _) = VerifierCS::new(4, &mut verifier_transcript, vec![]);
    assert_eq!(
        verifier.assign_uncommitted(Assignment::Missing, Assignment::Missing),
        Ok((Variable::MultiplierLeft(0), Variable::MultiplierRight(0)))
    );
}

#[test]
fn tying_committed_wires_to_a_gate() {
    // (3 * 2) * (4 * 5) = 120
    let good = run(&[3, 4, 120], Some((&[6, 20, 120], 2, 5)), false, None);
    assert!(good.satisfied);
    assert_eq!(good.prover_circuit, good.verifier_circuit);
    assert_eq!((good.prover_circuit.n, good.prover_circuit.m, good.prover_circuit.q), (1, 3, 3));
    let z = Scalar::zero();
    assert_eq!(good.prover_circuit.W_L, vec![vec![-s(1)], vec![z], vec![z]]);
    assert_eq!(good.prover_circuit.W_R, vec![vec![z], vec![-s(1)], vec![z]]);
    assert_eq!(good.prover_circuit.W_O, vec![vec![z], vec![z], vec![-s(1)]]);
    assert_eq!(
        good.prover_circuit.W_V,
        vec![vec![-s(2), z, z], vec![z, -s(5), z], vec![z, z, -s(1)]]
    );
    assert_eq!(good.prover_circuit.c, vec![z, z, z]);

    let bad = run(&[3, 4, 121], Some((&[6, 20, 120], 2, 5)), false, None);
    assert!(!bad.satisfied);
    assert_eq!(bad.prover_circuit, bad.verifier_circuit);
    assert_eq!(bad.prover_circuit, good.prover_circuit);
}

#[test]
fn pure_addition_has_no_gates() {
    let good = run(&[3, 4, 7], None, true, None);
    assert!(good.satisfied);
    assert_eq!(good.prover_circuit, good.verifier_circuit);
    assert_eq!((good.prover_circuit.n, good.prover_circuit.m, good.prover_circuit.q), (0, 3, 1));
    assert_eq!(good.prover_circuit.W_L, vec![Vec::<Scalar>::new()]);
    assert_eq!(good.prover_circuit.W_V, vec![vec![s(1), s(1), -s(1)]]);
    assert!(good.a_l.is_empty() && good.a_r.is_empty() && good.a_o.is_empty());

    let bad = run(&[3, 4, 10], None, true, None);
    assert!(!bad.satisfied);
    assert_eq!(bad.prover_circuit, good.prover_circuit);
}

#[test]
fn mixed_sums_and_product() {
    let good = run(&[3, 4, 6, 1, 40, 9], None, false, Some(&[7, 7, 49]));
    assert!(good.satisfied);
    assert_eq!(good.prover_circuit, good.verifier_circuit);
    assert_eq!((good.prover_circuit.n, good.prover_circuit.m, good.prover_circuit.q), (1, 6, 3));
    assert_eq!(good.a_l, scalars(&[7]));
    assert_eq!(good.a_o, scalars(&[49]));

    let bad = run(&[3, 4, 6, 1, 40, 10], None, false, Some(&[7, 7, 49]));
    assert!(!bad.satisfied);
    assert_eq!(bad.prover_circuit, good.prover_circuit);
}

#[test]
fn three_gates_are_padded_to_four() {
    let gens = PedersenGens::default();
    let mut prover_transcript = Transcript::new(b"R1CSTest");
    let (mut prover, _, _) =
        ProverCS::new(4, &gens, &mut prover_transcript, vec![], vec![]).unwrap();
    gates(&mut prover, &known(&[2, 3, 6, 4, 5, 20, 6, 7, 42])).unwrap();
    prover.add_constraint(LinearCombination::new(
        vec![(Variable::MultiplierOutput(2), s(1))],
        -s(42),
    ));
    assert_eq!(prover.is_satisfied(), Some(true));
    let (out, _) = prover.create_proof_input();
    let (prover_circuit, input) = out.unwrap();
    assert_eq!((prover_circuit.n, prover_circuit.q), (4, 1));
    assert_eq!(prover_circuit.W_O, vec![vec![Scalar::zero(), Scalar::zero(), -s(1), Scalar::zero()]]);
    assert_eq!(prover_circuit.W_L[0].len(), 4);
    assert_eq!(prover_circuit.W_R[0].len(), 4);
    assert_eq!(prover_circuit.c, vec![-s(42)]);
    assert_eq!(input.a_L, scalars(&[2, 4, 6, 0]));
    assert_eq!(input.a_R, scalars(&[3, 5, 7, 0]));
    assert_eq!(input.a_O, scalars(&[6, 20, 42, 0]));

    let mut verifier_transcript = Transcript::new(b"R1CSTest");
    let (mut verifier, _) = VerifierCS::new(4, &mut verifier_transcript, vec![]);
    gates(&mut verifier, &missing(9)).unwrap();
    verifier.add_constraint(LinearCombination::new(
        vec![(Variable::MultiplierOutput(2), s(1))],
        -s(42),
    ));
    let (out, _) = verifier.create_proof_input();
    assert_eq!(out.unwrap().0, prover_circuit);
}

#[test]
fn too_few_generators() {
    let gens = PedersenGens::default();
    let mut prover_transcript = Transcript::new(b"R1CSTest");
    let (mut prover, _, _) =
        ProverCS::new(3, &gens, &mut prover_transcript, vec![], vec![]).unwrap();
    gates(&mut prover, &known(&[2, 3, 6, 4, 5, 20, 6, 7, 42])).unwrap();
    let (out, _) = prover.create_proof_input();
    assert_eq!(out.err(), Some(R1CSError::InvalidGeneratorsLength));

    let mut verifier_transcript = Transcript::new(b"R1CSTest");
    let (mut verifier, _) = VerifierCS::new(3, &mut verifier_transcript, vec![]);
    gates(&mut verifier, &missing(9)).unwrap();
    let (out, _) = verifier.create_proof_input();
    assert_eq!(out.err(), Some(R1CSError::InvalidGeneratorsLength));

    let mut transcript = Transcript::new(b"R1CSTest");
    let (mut prover, _, _) = ProverCS::new(0, &gens, &mut transcript, vec![], vec![]).unwrap();
    let (out, _) = {
        prover.add_constraint(LinearCombination::zero());
        prover.create_proof_input()
    };
    assert_eq!(out.map(|pair| pair.0.n), Ok(0));
}

#[test]
fn values_and_blinding_factors_must_match() {
    let gens = PedersenGens::default();
    let mut transcript = Transcript::new(b"R1CSTest");
    let result = ProverCS::new(4, &gens, &mut transcript, scalars(&[1, 2]), scalars(&[3]));
    assert_eq!(result.err(), Some(R1CSError::IncorrectInputSize));
    // The transcript is as it was.
    let mut fresh = Transcript::new(b"R1CSTest");
    let mut a = [0u8; 16];
    let mut b = [0u8; 16];
    transcript.challenge_bytes(b"c", &mut a);
    fresh.challenge_bytes(b"c", &mut b);
    assert_eq!(a, b);
}

#[test]
fn prover_commits_to_the_committed_wires() {
    let gens = PedersenGens::default();
    let mut transcript = Transcript::new(b"R1CSTest");
    let (_, variables, commitments) =
        ProverCS::new(4, &gens, &mut transcript, scalars(&[5, 6]), scalars(&[7, 8])).unwrap();
    assert_eq!(variables, vec![Variable::Committed(0), Variable::Committed(1)]);
    assert_eq!(commitments, vec![gens.commit(s(5), s(7)), gens.commit(s(6), s(8))]);

    let mut transcript = Transcript::new(b"R1CSTest");
    let (_, variables) = VerifierCS::new(4, &mut transcript, commitments);
    assert_eq!(variables, vec![Variable::Committed(0), Variable::Committed(1)]);
}

#[test]
fn challenges_agree_between_prover_and_verifier() {
    let gens = PedersenGens::default();
    let mut prover_transcript = Transcript::new(b"R1CSTest");
    let (mut prover, _, commitments) =
        ProverCS::new(4, &gens, &mut prover_transcript, scalars(&[5, 6]), scalars(&[7, 8]))
            .unwrap();
    let mut verifier_transcript = Transcript::new(b"R1CSTest");
    let (mut verifier, _) = VerifierCS::new(4, &mut verifier_transcript, commitments.clone());

    let first = prover.challenge_scalar(b"first");
    assert_eq!(first, verifier.challenge_scalar(b"first"));
    prover.assign_multiplier(1u64.into(), 1u64.into(), 1u64.into()).unwrap();
    let second = prover.challenge_scalar(b"second");
    assert_eq!(second, verifier.challenge_scalar(b"second"));
    assert_ne!(first, second);

    // What the transcripts hold is the domain separator, the commitments
    // and the two draws.
    let (_, prover_transcript) = prover.create_proof_input();
    let (_, verifier_transcript) = verifier.create_proof_input();
    let mut expected = Transcript::new(b"R1CSTest");
    expected.append_message(b"dom-sep", b"r1cs v1");
    expected.append_u64(b"m", 2);
    expected.append_message(b"V", &commitments[0].to_bytes());
    expected.append_message(b"V", &commitments[1].to_bytes());
    let mut wide = [0u8; 64];
    expected.challenge_bytes(b"first", &mut wide);
    expected.challenge_bytes(b"second", &mut wide);
    let mut a = [0u8; 16];
    let mut b = [0u8; 16];
    let mut c = [0u8; 16];
    prover_transcript.challenge_bytes(b"end", &mut a);
    verifier_transcript.challenge_bytes(b"end", &mut b);
    expected.challenge_bytes(b"end", &mut c);
    assert_eq!(a, c);
    assert_eq!(b, c);
}

#[test]
fn challenges_are_bound_to_the_commitments() {
    let gens = PedersenGens::default();
    let mut transcript = Transcript::new(b"R1CSTest");
    let (mut prover, _, commitments) =
        ProverCS::new(4, &gens, &mut transcript, scalars(&[5]), scalars(&[7])).unwrap();
    let mut other_transcript = Transcript::new(b"R1CSTest");
    let other: Vec<CompressedRistretto> = vec![gens.commit(s(5), s(8))];
    assert_ne!(other, commitments);
    let (mut verifier, _) = VerifierCS::new(4, &mut other_transcript, other);
    assert_ne!(prover.challenge_scalar(b"z"), verifier.challenge_scalar(b"z"));
}

#[test]
fn verification_outcome() {
    assert_eq!(VerifierCS::verification_result(true), Ok(()));
    assert_eq!(VerifierCS::verification_result(false), Err(R1CSError::VerificationError));
}

#[test]
fn any_constraint_is_taken_by_both_sides() {
    let gens = PedersenGens::default();
    let lc = LinearCombination::from_terms(vec![
        (Variable::MultiplierRight(0), s(1)),
        (Variable::Committed(5), s(1)),
    ]);
    let mut prover_transcript = Transcript::new(b"R1CSTest");
    let (mut prover, _, _) =
        ProverCS::new(4, &gens, &mut prover_transcript, vec![], vec![]).unwrap();
    prover.add_constraint(lc.clone());
    assert_eq!(prover.multiplier_count(), 0);
    assert_eq!(prover.committed_count(), 0);
    assert!(!prover.constraints_fit(1));
    // A constraint on a wire that does not exist has no value.
    assert_eq!(prover.is_satisfied(), None);

    let mut verifier_transcript = Transcript::new(b"R1CSTest");
    let (mut verifier, _) = VerifierCS::new(
        4,
        &mut verifier_transcript,
        vec![CompressedRistretto([0u8; 32]); 6],
    );
    verifier.add_constraint(lc);
    assert!(!verifier.constraints_fit(0));
    verifier
        .assign_multiplier(Assignment::Missing, Assignment::Missing, Assignment::Missing)
        .unwrap();
    assert!(verifier.constraints_fit(1));
    assert_eq!(verifier.gens_capacity(), 4);
    let (out, _) = verifier.create_proof_input();
    let (circuit, _) = out.unwrap();
    assert_eq!((circuit.n, circuit.m, circuit.q), (1, 6, 1));
    assert_eq!(circuit.W_R, vec![vec![-s(1)]]);
    assert_eq!(circuit.W_V[0][5], s(1));
}

#[test]
fn uncommitted_gate_holds_the_product() {
    let gens = PedersenGens::default();
    let mut transcript = Transcript::new(b"R1CSTest");
    let (mut prover, _, _) = ProverCS::new(4, &gens, &mut transcript, vec![], vec![]).unwrap();
    prover.assign_uncommitted(5u64.into(), 9u64.into()).unwrap();
    assert!(prover
        .assign_uncommitted(5u64.into(), Assignment::Missing)
        .is_err());
    assert!(prover
        .assign_uncommitted(Assignment::Missing, Assignment::Missing)
        .is_err());
    prover.assign_uncommitted(0u64.into(), 9u64.into()).unwrap();
    assert_eq!(prover.multiplier_count(), 2);
    let (out, _) = prover.create_proof_input();
    let (_, input) = out.unwrap();
    assert_eq!(input.a_L, scalars(&[5, 0]));
    assert_eq!(input.a_R, scalars(&[9, 9]));
    assert_eq!(input.a_O, scalars(&[45, 0]));
}
