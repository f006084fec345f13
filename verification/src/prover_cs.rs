//! The constraint system of the prover.

use crate::assignment::all_known;
use crate::assignment::Assignment;
use crate::assignment::known_values;
use crate::circuit::checked_padded_len;
use crate::circuit::constraints_in_range;
use crate::circuit::Circuit;
use crate::circuit::lemma_padded_len;
use crate::circuit::padded_len;
use crate::circuit::ProverInput;
use crate::circuit::scalars_view;
use crate::circuit::zero_padded;
use crate::circuit_proof::commitments_to;
use crate::circuit_proof::gates_consistent;
use crate::circuit_proof::lemma_padded_zeros;
use crate::circuit_proof::satisfied;
use crate::constraint_system::ConstraintSystem;
use crate::constraint_system::Shape;
use crate::errors::R1CSError;
use crate::generators::CompressedRistretto;
use crate::generators::PedersenGens;
use crate::generators::points_view;
use crate::linear_combination::LinearCombination;
use crate::linear_combination::Terms;
use crate::linear_combination::Wires;
use crate::relation::circuit_holds;
use crate::relation::padded_wires;
use crate::scalar::field_mul;
use crate::scalar::Scalar;
use crate::transcript::challenge_scalar;
use crate::transcript::commit_point;
use crate::transcript::r1cs_domain_sep;
use crate::transcript::state_after_commitments;
use crate::transcript::state_after_points;
use crate::transcript::transcript_state;
use crate::variable::Variable;
use vstd::prelude::*;

verus! {

/// The constraint system of the prover, who knows the value of every wire.
pub struct ProverCS<'a> {
    transcript: &'a mut merlin::Transcript,
    gens_capacity: usize,
    cs: crate::circuit_proof::ConstraintSystem,
    v_blinding: Vec<Scalar>,
}

impl<'a> ProverCS<'a> {
    /// The values of the left inputs of the multiplication gates.
    pub closed spec fn left(&self) -> Seq<nat> {
        known_values(self.cs.left())
    }

    /// The values of the right inputs of the multiplication gates.
    pub closed spec fn right(&self) -> Seq<nat> {
        known_values(self.cs.right())
    }

    /// The values of the outputs of the multiplication gates.
    pub closed spec fn output(&self) -> Seq<nat> {
        known_values(self.cs.output())
    }

    /// The values of the committed wires.
    pub closed spec fn committed(&self) -> Seq<nat> {
        known_values(self.cs.committed())
    }

    /// The blinding factors of the commitments.
    pub closed spec fn blindings(&self) -> Seq<nat> {
        scalars_view(self.v_blinding@)
    }

    /// The number of generators that the proof protocol has.
    pub closed spec fn capacity(&self) -> nat {
        self.gens_capacity as nat
    }

    /// Every gate that the prover's system holds is consistent: its output
    /// is the product of its inputs. There is one value and one blinding
    /// factor for each committed wire.
    pub proof fn lemma_inv(&self)
        requires
            self.well_formed(),
        ensures
            gates_consistent(self.left(), self.right(), self.output()),
            self.left().len() == self.shape().multipliers,
            self.committed().len() == self.shape().committed,
            self.blindings().len() == self.shape().committed,
    {
        self.cs.lemma_well_formed();
    }

    /// The number of generators that the proof protocol has.
    pub fn gens_capacity(&self) -> (n: usize)
        ensures
            n == self.capacity(),
    {
        self.gens_capacity
    }

    /// The number of multiplication gates that were allocated.
    pub fn multiplier_count(&self) -> (n: usize)
        ensures
            n == self.shape().multipliers,
    {
        self.cs.multiplier_count()
    }

    /// The number of committed wires.
    pub fn committed_count(&self) -> (m: usize)
        ensures
            m == self.shape().committed,
    {
        self.cs.get_m()
    }

    /// The values of the wires.
    pub open spec fn wires(&self) -> Wires {
        Wires { a_l: self.left(), a_r: self.right(), a_o: self.output(), v: self.committed() }
    }

    /// Whether every constraint is on wires of a system with `n`
    /// multiplication gates and the committed wires of this one.
    pub fn constraints_fit(&self, n: usize) -> (r: bool)
        ensures
            r == constraints_in_range(
                self.shape().constraints,
                n as nat,
                self.shape().committed,
            ),
    {
        self.cs.constraints_fit(n)
    }

    /// Whether the values of the wires satisfy every constraint. The gates
    /// are consistent in any case. There is an answer where every
    /// constraint is on wires that are allocated.
    pub fn is_satisfied(&self) -> (r: Option<bool>)
        requires
            self.well_formed(),
        ensures
            r is Some <==> self.shape().constraints_allocated(),
            r matches Some(holds) ==> holds == satisfied(self.wires(), self.shape().constraints),
    {
        self.cs.is_satisfied()
    }

    /// The prover's wires satisfy every constraint exactly if, padded with
    /// gates of zeros, they satisfy the circuit of the system: the output of
    /// every gate is the product of its inputs, and every row of the
    /// circuit holds. This is so where every constraint is on wires that
    /// are allocated.
    pub proof fn lemma_satisfaction_is_the_circuit_relation(&self)
        requires
            self.well_formed(),
            self.shape().constraints_allocated(),
            padded_len(self.shape().multipliers) <= usize::MAX,
        ensures
            ({
                let padded = padded_wires(self.wires(), padded_len(self.shape().multipliers));
                &&& gates_consistent(padded.a_l, padded.a_r, padded.a_o)
                &&& satisfied(self.wires(), self.shape().constraints) <==> circuit_holds(
                    self.shape().circuit(),
                    padded,
                )
            }),
    {
        self.cs.lemma_well_formed();
        crate::relation::lemma_satisfaction_is_the_circuit_relation(
            self.shape().constraints,
            self.wires(),
        );
    }

    /// A system over the committed wires with the values `v` and the
    /// blinding factors `v_blinding`, for a proof protocol with
    /// `gens_capacity` generators. The commitments to the wires are appended
    /// to the transcript and given back with the wires.
    pub fn new(
        gens_capacity: usize,
        pc_gens: &PedersenGens,
        transcript: &'a mut merlin::Transcript,
        v: Vec<Scalar>,
        v_blinding: Vec<Scalar>,
    ) -> (r: Result<(ProverCS<'a>, Vec<Variable>, Vec<CompressedRistretto>), R1CSError>)
        ensures
            v@.len() != v_blinding@.len() ==> r is Err && r->Err_0 == R1CSError::IncorrectInputSize
                && *final(transcript) == *old(transcript),
            v@.len() == v_blinding@.len() ==> r is Ok && {
                let (cs, variables, commitments) = r->Ok_0;
                &&& cs.well_formed()
                &&& cs.shape() == (Shape {
                    multipliers: 0,
                    committed: v@.len(),
                    constraints: Seq::<Terms>::empty(),
                })
                &&& cs.capacity() == gens_capacity
                &&& cs.left() == Seq::<nat>::empty()
                &&& cs.right() == Seq::<nat>::empty()
                &&& cs.output() == Seq::<nat>::empty()
                &&& cs.committed() == scalars_view(v@)
                &&& cs.blindings() == scalars_view(v_blinding@)
                &&& points_view(commitments@) == commitments_to(
                    *pc_gens,
                    scalars_view(v@),
                    scalars_view(v_blinding@),
                )
                &&& cs.transcript() == state_after_commitments(
                    transcript_state(*old(transcript)),
                    points_view(commitments@),
                )
                &&& variables@.len() == v@.len()
                &&& forall|i: int|
                    0 <= i < v@.len() ==> #[trigger] variables@[i] == Variable::Committed(
                        i as usize,
                    )
            },
    {
        if v.len() != v_blinding.len() {
            return Err(R1CSError::IncorrectInputSize);
        }
        let m = v.len();
        r1cs_domain_sep(transcript, m as u64);
        let ghost start = transcript_state(*transcript);
        let mut cs = crate::circuit_proof::ConstraintSystem::new();
        let mut variables: Vec<Variable> = Vec::new();
        let mut commitments: Vec<CompressedRistretto> = Vec::new();
        let mut i: usize = 0;
        assert(points_view(commitments@) =~= Seq::<Seq<u8>>::empty());
        while i < m
            invariant
                i <= m,
                m == v@.len(),
                m == v_blinding@.len(),
                cs.well_formed(),
                cs.left() == Seq::<Option<nat>>::empty(),
                cs.right() == Seq::<Option<nat>>::empty(),
                cs.output() == Seq::<Option<nat>>::empty(),
                cs.constraints() == Seq::<Terms>::empty(),
                cs.committed().len() == i,
                forall|k: int| 0 <= k < i ==> (#[trigger] cs.committed()[k]) == Some(v@[k]@),
                variables@.len() == i,
                forall|k: int|
                    0 <= k < i ==> #[trigger] variables@[k] == Variable::Committed(k as usize),
                commitments@.len() == i,
                forall|k: int|
                    0 <= k < i ==> (#[trigger] commitments@[k])@ == pc_gens.spec_commit(
                        v@[k]@,
                        v_blinding@[k]@,
                    ),
                transcript_state(*transcript) == state_after_points(
                    start,
                    points_view(commitments@),
                ),
            decreases m - i,
        {
            let commitment = pc_gens.commit(v[i], v_blinding[i]);
            commit_point(transcript, &commitment);
            let ghost before = points_view(commitments@);
            commitments.push(commitment);
            proof {
                assert(points_view(commitments@) =~= before.push(commitment@));
                assert(points_view(commitments@).drop_last() =~= before);
            }
            let variable = cs.assign_v(Assignment::HasValue(v[i]));
            variables.push(variable);
            i += 1;
        }
        proof {
            assert(known_values(cs.left()) =~= Seq::<nat>::empty());
            assert(known_values(cs.right()) =~= Seq::<nat>::empty());
            assert(known_values(cs.output()) =~= Seq::<nat>::empty());
            assert(known_values(cs.committed()) =~= scalars_view(v@));
            assert(points_view(commitments@) =~= commitments_to(
                *pc_gens,
                scalars_view(v@),
                scalars_view(v_blinding@),
            ));
            cs.lemma_well_formed();
        }
        let prover = ProverCS { transcript, gens_capacity, cs, v_blinding };
        Ok((prover, variables, commitments))
    }

    /// Finalizes the system: pads the multiplication gates with gates of
    /// zeros, and gives the circuit and the prover's input to the proof
    /// protocol. There must be generators for every gate of the padded
    /// circuit. The transcript is given back as the system leaves it. Where
    /// the circuit is assembled, every constraint must be on wires of it.
    pub fn create_proof_input(self) -> (r: (
        Result<(Circuit, ProverInput), R1CSError>,
        &'a mut merlin::Transcript,
    ))
        requires
            self.well_formed(),
            padded_len(self.shape().multipliers) <= self.capacity() ==> self.shape().assemblable(),
        ensures
            transcript_state(*r.1) == self.transcript(),
            padded_len(self.shape().multipliers) > self.capacity() ==> r.0 is Err && r.0->Err_0
                == R1CSError::InvalidGeneratorsLength,
            padded_len(self.shape().multipliers) <= self.capacity() ==> r.0 is Ok && {
                let (circuit, input) = r.0->Ok_0;
                let n = padded_len(self.shape().multipliers);
                &&& circuit@ == self.shape().circuit()
                &&& circuit.well_formed()
                &&& scalars_view(input.a_L@) == zero_padded(self.left(), n)
                &&& scalars_view(input.a_R@) == zero_padded(self.right(), n)
                &&& scalars_view(input.a_O@) == zero_padded(self.output(), n)
                &&& scalars_view(input.v@) == self.committed()
                &&& scalars_view(input.v_blinding@) == self.blindings()
            },
    {
        let ProverCS { transcript, gens_capacity, cs, v_blinding } = self;
        let n0 = cs.multiplier_count();
        let fits = match checked_padded_len(n0) {
            Some(n) => n <= gens_capacity,
            None => false,
        };
        if !fits {
            return (Err(R1CSError::InvalidGeneratorsLength), transcript);
        }
        let ghost unpadded = cs;
        let mut cs = cs;
        proof {
            cs.lemma_well_formed();
            lemma_padded_len(n0 as nat);
        }
        cs.pad();
        proof {
            cs.lemma_well_formed();
            lemma_padded_zeros(unpadded.left(), cs.left());
            lemma_padded_zeros(unpadded.right(), cs.right());
            lemma_padded_zeros(unpadded.output(), cs.output());
        }
        let circuit = cs.create_circuit();
        match cs.create_prover_input(&v_blinding) {
            Ok(input) => (Ok((circuit, input)), transcript),
            Err(e) => (Err(e), transcript),
        }
    }
}

impl<'a> ConstraintSystem for ProverCS<'a> {
    closed spec fn well_formed(&self) -> bool {
        &&& self.cs.well_formed()
        &&& all_known(self.cs.left())
        &&& all_known(self.cs.right())
        &&& all_known(self.cs.output())
        &&& all_known(self.cs.committed())
        &&& self.v_blinding@.len() == self.cs.committed().len()
    }

    closed spec fn shape(&self) -> Shape {
        Shape {
            multipliers: self.cs.multipliers(),
            committed: self.cs.committed().len(),
            constraints: self.cs.constraints(),
        }
    }

    closed spec fn transcript(&self) -> Seq<u8> {
        transcript_state(*self.transcript)
    }

    /// The prover takes a gate of known values whose output is the product
    /// of its inputs.
    open spec fn accepts(left: Option<nat>, right: Option<nat>, out: Option<nat>) -> bool {
        &&& left is Some
        &&& right is Some
        &&& out is Some
        &&& out.unwrap() == field_mul(left.unwrap(), right.unwrap())
    }

    proof fn lemma_shape_well_formed(&self) {
        self.cs.lemma_well_formed();
    }

    proof fn lemma_accepts_unmixed(left: Option<nat>, right: Option<nat>, out: Option<nat>) {
    }

    fn assign_multiplier(&mut self, left: Assignment, right: Assignment, out: Assignment) -> (r:
        Result<(Variable, Variable, Variable), R1CSError>)
        ensures
            Self::accepts(left@, right@, out@) ==> {
                &&& final(self).left() == old(self).left().push(left@.unwrap())
                &&& final(self).right() == old(self).right().push(right@.unwrap())
                &&& final(self).output() == old(self).output().push(out@.unwrap())
            },
            !Self::accepts(left@, right@, out@) ==> {
                &&& final(self).left() == old(self).left()
                &&& final(self).right() == old(self).right()
                &&& final(self).output() == old(self).output()
            },
            final(self).committed() == old(self).committed(),
            final(self).blindings() == old(self).blindings(),
            final(self).capacity() == old(self).capacity(),
    {
        match (left, right, out) {
            (Assignment::HasValue(l), Assignment::HasValue(r), Assignment::HasValue(o)) => {
                let allocated = self.cs.assign_a(left, right, out);
                proof {
                    if allocated is Ok {
                        assert(self.left() =~= old(self).left().push(l@));
                        assert(self.right() =~= old(self).right().push(r@));
                        assert(self.output() =~= old(self).output().push(o@));
                        assert forall|k: int| 0 <= k < self.cs.left().len() implies (
                        #[trigger] self.cs.left()[k]) is Some by {
                            if k < old(self).cs.left().len() {
                                assert(old(self).cs.left()[k] is Some);
                            }
                        }
                        assert forall|k: int| 0 <= k < self.cs.right().len() implies (
                        #[trigger] self.cs.right()[k]) is Some by {
                            if k < old(self).cs.right().len() {
                                assert(old(self).cs.right()[k] is Some);
                            }
                        }
                        assert forall|k: int| 0 <= k < self.cs.output().len() implies (
                        #[trigger] self.cs.output()[k]) is Some by {
                            if k < old(self).cs.output().len() {
                                assert(old(self).cs.output()[k] is Some);
                            }
                        }
                    }
                }
                allocated
            },
            _ => Err(R1CSError::InvalidAssignment),
        }
    }

    fn assign_uncommitted(&mut self, val_1: Assignment, val_2: Assignment) -> (r: Result<
        (Variable, Variable),
        R1CSError,
    >)
        ensures
            val_1@ is Some && val_2@ is Some ==> {
                &&& final(self).left() == old(self).left().push(val_1@.unwrap())
                &&& final(self).right() == old(self).right().push(val_2@.unwrap())
                &&& final(self).output() == old(self).output().push(
                    field_mul(val_1@.unwrap(), val_2@.unwrap()),
                )
            },
            !(val_1@ is Some && val_2@ is Some) ==> {
                &&& final(self).left() == old(self).left()
                &&& final(self).right() == old(self).right()
                &&& final(self).output() == old(self).output()
            },
            final(self).committed() == old(self).committed(),
            final(self).blindings() == old(self).blindings(),
            final(self).capacity() == old(self).capacity(),
    {
        let val_3 = val_1 * val_2;
        match self.assign_multiplier(val_1, val_2, val_3) {
            Ok((left, right, _)) => Ok((left, right)),
            Err(e) => Err(e),
        }
    }

    fn add_constraint(&mut self, lc: LinearCombination)
        ensures
            final(self).left() == old(self).left(),
            final(self).right() == old(self).right(),
            final(self).output() == old(self).output(),
            final(self).committed() == old(self).committed(),
            final(self).blindings() == old(self).blindings(),
            final(self).capacity() == old(self).capacity(),
    {
        self.cs.constrain(lc);
    }

    fn challenge_scalar(&mut self, label: &'static [u8]) -> (r: Scalar)
        ensures
            final(self).left() == old(self).left(),
            final(self).right() == old(self).right(),
            final(self).output() == old(self).output(),
            final(self).committed() == old(self).committed(),
            final(self).blindings() == old(self).blindings(),
            final(self).capacity() == old(self).capacity(),
    {
        challenge_scalar(self.transcript, label)
    }
}

} // verus!
