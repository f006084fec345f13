//! The constraint system of the verifier.

use crate::assignment::all_missing;
use crate::assignment::Assignment;
use crate::circuit::checked_padded_len;
use crate::circuit::constraints_in_range;
use crate::circuit::Circuit;
use crate::circuit::lemma_padded_len;
use crate::circuit::padded_len;
use crate::circuit::VerifierInput;
use crate::constraint_system::ConstraintSystem;
use crate::constraint_system::Shape;
use crate::errors::R1CSError;
use crate::generators::CompressedRistretto;
use crate::generators::points_view;
use crate::linear_combination::LinearCombination;
use crate::linear_combination::Terms;
use crate::scalar::Scalar;
use crate::transcript::challenge_scalar;
use crate::transcript::commit_point;
use crate::transcript::r1cs_domain_sep;
use crate::transcript::state_after_commitments;
use crate::transcript::state_after_points;
use crate::transcript::transcript_state;
use crate::variable::Variable;
use vstd::prelude::*;

verus! {

/// The constraint system of the verifier, who knows the commitments to the
/// committed wires and the value of no wire.
pub struct VerifierCS<'a> {
    transcript: &'a mut merlin::Transcript,
    gens_capacity: usize,
    cs: crate::circuit_proof::ConstraintSystem,
    commitments: Vec<CompressedRistretto>,
}

impl<'a> VerifierCS<'a> {
    /// The commitments to the committed wires.
    pub closed spec fn commitments(&self) -> Seq<Seq<u8>> {
        points_view(self.commitments@)
    }

    /// The number of generators that the proof protocol has.
    pub closed spec fn capacity(&self) -> nat {
        self.gens_capacity as nat
    }

    /// There is one commitment for each committed wire.
    pub proof fn lemma_inv(&self)
        requires
            self.well_formed(),
        ensures
            self.commitments().len() == self.shape().committed,
    {
        self.cs.lemma_well_formed();
    }

    /// The number of generators that the proof protocol has.
    pub fn gens_capacity(&self) -> (n: usize)
        ensures
            n == self.capacity(),
    {
        self.gens_capacity
    }

    /// The number of multiplication gates that were allocated.
    pub fn multiplier_count(&self) -> (n: usize)
        ensures
            n == self.shape().multipliers,
    {
        self.cs.multiplier_count()
    }

    /// The number of committed wires.
    pub fn committed_count(&self) -> (m: usize)
        ensures
            m == self.shape().committed,
    {
        self.cs.get_m()
    }

    /// Whether every constraint is on wires of a system with `n`
    /// multiplication gates and the committed wires of this one.
    pub fn constraints_fit(&self, n: usize) -> (r: bool)
        ensures
            r == constraints_in_range(
                self.shape().constraints,
                n as nat,
                self.shape().committed,
            ),
    {
        self.cs.constraints_fit(n)
    }

    /// A system over the committed wires with the given commitments, for a
    /// proof protocol with `gens_capacity` generators. The commitments are
    /// appended to the transcript, and the wires are given back.
    pub fn new(
        gens_capacity: usize,
        transcript: &'a mut merlin::Transcript,
        commitments: Vec<CompressedRistretto>,
    ) -> (r: (VerifierCS<'a>, Vec<Variable>))
        ensures
            r.0.well_formed(),
            r.0.shape() == (Shape {
                multipliers: 0,
                committed: commitments@.len(),
                constraints: Seq::<Terms>::empty(),
            }),
            r.0.capacity() == gens_capacity,
            r.0.commitments() == points_view(commitments@),
            r.0.transcript() == state_after_commitments(
                transcript_state(*old(transcript)),
                points_view(commitments@),
            ),
            r.1@.len() == commitments@.len(),
            forall|i: int|
                0 <= i < commitments@.len() ==> #[trigger] r.1@[i] == Variable::Committed(
                    i as usize,
                ),
    {
        let m = commitments.len();
        r1cs_domain_sep(transcript, m as u64);
        let ghost start = transcript_state(*transcript);
        let mut cs = crate::circuit_proof::ConstraintSystem::new();
        let mut variables: Vec<Variable> = Vec::new();
        let mut i: usize = 0;
        assert(points_view(commitments@).take(0) =~= Seq::<Seq<u8>>::empty());
        while i < m
            invariant
                i <= m,
                m == commitments@.len(),
                cs.well_formed(),
                cs.left() == Seq::<Option<nat>>::empty(),
                cs.right() == Seq::<Option<nat>>::empty(),
                cs.output() == Seq::<Option<nat>>::empty(),
                cs.constraints() == Seq::<Terms>::empty(),
                cs.committed().len() == i,
                all_missing(cs.committed()),
                variables@.len() == i,
                forall|k: int|
                    0 <= k < i ==> #[trigger] variables@[k] == Variable::Committed(k as usize),
                transcript_state(*transcript) == state_after_points(
                    start,
                    points_view(commitments@).take(i as int),
                ),
            decreases m - i,
        {
            commit_point(transcript, &commitments[i]);
            proof {
                let points = points_view(commitments@);
                assert(points.take(i + 1).drop_last() =~= points.take(i as int));
                assert(points.take(i + 1).last() == commitments@[i as int]@);
            }
            let variable = cs.assign_v(Assignment::Missing);
            variables.push(variable);
            i += 1;
        }
        proof {
            assert(points_view(commitments@).take(m as int) =~= points_view(commitments@));
            cs.lemma_well_formed();
        }
        let verifier = VerifierCS { transcript, gens_capacity, cs, commitments };
        (verifier, variables)
    }

    /// Finalizes the system: gives the circuit, with the multiplication
    /// gates padded, and the commitments to the proof protocol. There must
    /// be generators for every gate of the padded circuit. The transcript
    /// is given back as the system leaves it. Where the circuit is
    /// assembled, every constraint must be on wires of it.
    pub fn create_proof_input(self) -> (r: (
        Result<(Circuit, VerifierInput), R1CSError>,
        &'a mut merlin::Transcript,
    ))
        requires
            self.well_formed(),
            padded_len(self.shape().multipliers) <= self.capacity() ==> self.shape().assemblable(),
        ensures
            transcript_state(*r.1) == self.transcript(),
            padded_len(self.shape().multipliers) > self.capacity() ==> r.0 is Err && r.0->Err_0
                == R1CSError::InvalidGeneratorsLength,
            padded_len(self.shape().multipliers) <= self.capacity() ==> r.0 is Ok && {
                let (circuit, input) = r.0->Ok_0;
                &&& circuit@ == self.shape().circuit()
                &&& circuit.well_formed()
                &&& points_view(input.V@) == self.commitments()
            },
    {
        let VerifierCS { transcript, gens_capacity, cs, commitments } = self;
        let n0 = cs.multiplier_count();
        let fits = match checked_padded_len(n0) {
            Some(n) => n <= gens_capacity,
            None => false,
        };
        if !fits {
            return (Err(R1CSError::InvalidGeneratorsLength), transcript);
        }
        proof {
            cs.lemma_well_formed();
            lemma_padded_len(n0 as nat);
        }
        let circuit = cs.create_circuit();
        (Ok((circuit, VerifierInput { V: commitments })), transcript)
    }

    /// The outcome of the verification, from what the proof protocol found:
    /// a proof that it did not accept is a verification error.
    pub fn verification_result(accepted: bool) -> (r: Result<(), R1CSError>)
        ensures
            accepted ==> r is Ok,
            !accepted ==> r is Err && r->Err_0 == R1CSError::VerificationError,
    {
        if accepted {
            Ok(())
        } else {
            Err(R1CSError::VerificationError)
        }
    }
}

impl<'a> ConstraintSystem for VerifierCS<'a> {
    closed spec fn well_formed(&self) -> bool {
        &&& self.cs.well_formed()
        &&& all_missing(self.cs.left())
        &&& all_missing(self.cs.right())
        &&& all_missing(self.cs.output())
        &&& all_missing(self.cs.committed())
        &&& self.commitments@.len() == self.cs.committed().len()
    }

    closed spec fn shape(&self) -> Shape {
        Shape {
            multipliers: self.cs.multipliers(),
            committed: self.cs.committed().len(),
            constraints: self.cs.constraints(),
        }
    }

    closed spec fn transcript(&self) -> Seq<u8> {
        transcript_state(*self.transcript)
    }

    /// The verifier takes a gate of which nothing is known.
    open spec fn accepts(left: Option<nat>, right: Option<nat>, out: Option<nat>) -> bool {
        left is None && right is None && out is None
    }

    proof fn lemma_shape_well_formed(&self) {
        self.cs.lemma_well_formed();
    }

    proof fn lemma_accepts_unmixed(left: Option<nat>, right: Option<nat>, out: Option<nat>) {
    }

    fn assign_multiplier(&mut self, left: Assignment, right: Assignment, out: Assignment) -> (r:
        Result<(Variable, Variable, Variable), R1CSError>)
        ensures
            final(self).commitments() == old(self).commitments(),
            final(self).capacity() == old(self).capacity(),
    {
        match (left, right, out) {
            (Assignment::Missing, Assignment::Missing, Assignment::Missing) => {
                proof {
                    self.cs.lemma_well_formed();
                }
                self.cs.assign_a(left, right, out)
            },
            _ => Err(R1CSError::InvalidAssignment),
        }
    }

    fn assign_uncommitted(&mut self, val_1: Assignment, val_2: Assignment) -> (r: Result<
        (Variable, Variable),
        R1CSError,
    >)
        ensures
            final(self).commitments() == old(self).commitments(),
            final(self).capacity() == old(self).capacity(),
    {
        let val_3 = val_1 * val_2;
        match self.assign_multiplier(val_1, val_2, val_3) {
            Ok((left, right, _)) => Ok((left, right)),
            Err(e) => Err(e),
        }
    }

    fn add_constraint(&mut self, lc: LinearCombination)
        ensures
            final(self).commitments() == old(self).commitments(),
            final(self).capacity() == old(self).capacity(),
    {
        self.cs.constrain(lc);
    }

    fn challenge_scalar(&mut self, label: &'static [u8]) -> (r: Scalar)
        ensures
            final(self).commitments() == old(self).commitments(),
            final(self).capacity() == old(self).capacity(),
    {
        challenge_scalar(self.transcript, label)
    }
}

} // verus!
