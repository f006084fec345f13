//! A constraint system without a role.
//!
//! [`ConstraintSystem`] records what both the prover and the verifier
//! record: the assignments of the wires, as far as they are known, and the
//! constraints. From it come the circuit and the inputs of either side to
//! the proof protocol.

use crate::assignment::all_known;
use crate::assignment::Assignment;
use crate::assignment::assignments_view;
use crate::assignment::known_values;
use crate::circuit::checked_padded_len;
use crate::circuit::Circuit;
use crate::circuit::circuit_of;
use crate::circuit::constraints_in_range;
use crate::circuit::constraints_view;
use crate::circuit::lemma_padded_len;
use crate::circuit::padded_len;
use crate::circuit::ProverInput;
use crate::circuit::scalars_view;
use crate::circuit::VerifierInput;
use crate::circuit::zero_padded;
use crate::errors::R1CSError;
use crate::generators::CompressedRistretto;
use crate::generators::PedersenGens;
use crate::generators::points_view;
use crate::linear_combination::LinearCombination;
use crate::linear_combination::Terms;
use crate::linear_combination::value;
use crate::linear_combination::Wires;
use crate::scalar::field_mul;
use crate::scalar::Scalar;
use crate::variable::Variable;
use crate::variable::VariableType;
use vstd::prelude::*;

verus! {

/// The assignment of a wire whose value is not known.
pub fn err_assignment() -> (r: Assignment)
    ensures
        r@ is None,
{
    Assignment::Missing
}

/// The commitments to the values `values` with the blinding factors
/// `blindings`, one for each index.
pub open spec fn commitments_to(gens: PedersenGens, values: Seq<nat>, blindings: Seq<nat>) -> Seq<
    Seq<u8>,
> {
    Seq::new(values.len(), |i: int| gens.spec_commit(values[i], blindings[i]))
}

/// Whether a multiplication gate may have these assignments: either none
/// of them is known, or all are and the output is the product of the
/// inputs.
pub open spec fn gate_accepted(left: Option<nat>, right: Option<nat>, out: Option<nat>) -> bool {
    ||| left is None && right is None && out is None
    ||| left is Some && right is Some && out is Some && out.unwrap() == field_mul(
        left.unwrap(),
        right.unwrap(),
    )
}

/// Whether every gate has assignments that it may have.
pub open spec fn gates_accepted(
    left: Seq<Option<nat>>,
    right: Seq<Option<nat>>,
    output: Seq<Option<nat>>,
) -> bool {
    &&& left.len() == right.len()
    &&& left.len() == output.len()
    &&& forall|k: int| 0 <= k < left.len() ==> gate_accepted(#[trigger] left[k], right[k], output[k])
}

/// Whether the output of every gate is the product of its inputs.
pub open spec fn gates_consistent(left: Seq<nat>, right: Seq<nat>, output: Seq<nat>) -> bool {
    &&& left.len() == right.len()
    &&& left.len() == output.len()
    &&& forall|k: int| 0 <= k < left.len() ==> #[trigger] output[k] == field_mul(left[k], right[k])
}

/// Whether the values of the wires satisfy a system: the output of every
/// gate is the product of its inputs, and every constraint has the value
/// zero.
pub open spec fn satisfied(wires: Wires, constraints: Seq<Terms>) -> bool {
    &&& gates_consistent(wires.a_l, wires.a_r, wires.a_o)
    &&& forall|i: int| 0 <= i < constraints.len() ==> value(#[trigger] constraints[i], wires) == 0
}

/// The values of the assignments, if none is missing.
fn collect_values(assignments: &Vec<Assignment>) -> (r: Option<Vec<Scalar>>)
    ensures
        r is Some <==> all_known(assignments_view(assignments@)),
        r matches Some(values) ==> values@.len() == assignments@.len() && scalars_view(values@)
            == known_values(assignments_view(assignments@)),
{
    let mut values: Vec<Scalar> = Vec::new();
    let mut i: usize = 0;
    while i < assignments.len()
        invariant
            i <= assignments.len(),
            values@.len() == i,
            forall|k: int| 0 <= k < i ==> (#[trigger] assignments@[k])@ == Some(values@[k]@),
        decreases assignments.len() - i,
    {
        match assignments[i] {
            Assignment::HasValue(s) => {
                values.push(s);
            },
            Assignment::Missing => {
                assert(assignments_view(assignments@)[i as int] is None);
                return None;
            },
        }
        i += 1;
    }
    assert(scalars_view(values@) =~= known_values(assignments_view(assignments@)));
    assert forall|k: int| 0 <= k < assignments@.len() implies (#[trigger] assignments_view(
        assignments@,
    )[k]) is Some by {
        assert(assignments@[k]@ == Some(values@[k]@));
    }
    Some(values)
}

/// The assignments of the wires and the constraints on them.
#[allow(non_snake_case)]
pub struct ConstraintSystem {
    lc_vec: Vec<LinearCombination>,
    aL_assignment: Vec<Assignment>,
    aR_assignment: Vec<Assignment>,
    aO_assignment: Vec<Assignment>,
    v_assignment: Vec<Assignment>,
}

impl ConstraintSystem {
    /// The constraints, in the order in which they were added.
    pub closed spec fn constraints(&self) -> Seq<Terms> {
        constraints_view(self.lc_vec@)
    }

    /// The assignments of the left inputs of the multiplication gates.
    pub closed spec fn left(&self) -> Seq<Option<nat>> {
        assignments_view(self.aL_assignment@)
    }

    /// The assignments of the right inputs of the multiplication gates.
    pub closed spec fn right(&self) -> Seq<Option<nat>> {
        assignments_view(self.aR_assignment@)
    }

    /// The assignments of the outputs of the multiplication gates.
    pub closed spec fn output(&self) -> Seq<Option<nat>> {
        assignments_view(self.aO_assignment@)
    }

    /// The assignments of the committed wires.
    pub closed spec fn committed(&self) -> Seq<Option<nat>> {
        assignments_view(self.v_assignment@)
    }

    /// The number of multiplication gates that were allocated.
    pub open spec fn multipliers(&self) -> nat {
        self.left().len()
    }

    /// The three wires of every multiplication gate are allocated together:
    /// their assignments are all missing, or all known with the output the
    /// product of the inputs.
    pub closed spec fn well_formed(&self) -> bool {
        &&& self.aL_assignment@.len() <= usize::MAX
        &&& self.v_assignment@.len() <= usize::MAX
        &&& gates_accepted(
            assignments_view(self.aL_assignment@),
            assignments_view(self.aR_assignment@),
            assignments_view(self.aO_assignment@),
        )
    }

    /// What `well_formed` says, over the public views.
    pub proof fn lemma_well_formed(&self)
        requires
            self.well_formed(),
        ensures
            self.right().len() == self.multipliers(),
            self.output().len() == self.multipliers(),
            self.multipliers() <= usize::MAX,
            self.committed().len() <= usize::MAX,
            gates_accepted(self.left(), self.right(), self.output()),
            self.all_wires_known() ==> gates_consistent(
                self.wires().a_l,
                self.wires().a_r,
                self.wires().a_o,
            ),
    {
        if self.all_wires_known() {
            assert forall|k: int| 0 <= k < self.left().len() implies #[trigger] self.wires().a_o[k]
                == field_mul(self.wires().a_l[k], self.wires().a_r[k]) by {
                assert(gate_accepted(self.left()[k], self.right()[k], self.output()[k]));
            }
        }
    }

    /// Whether every constraint is on wires that are allocated.
    pub open spec fn constraints_allocated(&self) -> bool {
        constraints_in_range(self.constraints(), self.multipliers(), self.committed().len())
    }

    /// Whether every constraint is on wires of the circuit: the gates that
    /// are allocated, those that padding adds, and the committed wires. It
    /// is so where every constraint is on wires that are allocated.
    pub open spec fn assemblable(&self) -> bool {
        constraints_in_range(
            self.constraints(),
            padded_len(self.multipliers()),
            self.committed().len(),
        )
    }

    /// The values of the wires, where all are known.
    pub open spec fn wires(&self) -> Wires {
        Wires {
            a_l: known_values(self.left()),
            a_r: known_values(self.right()),
            a_o: known_values(self.output()),
            v: known_values(self.committed()),
        }
    }

    /// Whether the value of every wire is known.
    pub open spec fn all_wires_known(&self) -> bool {
        &&& all_known(self.left())
        &&& all_known(self.right())
        &&& all_known(self.output())
        &&& all_known(self.committed())
    }

    /// The circuit of the system.
    pub open spec fn circuit(&self) -> crate::circuit::CircuitView {
        circuit_of(self.constraints(), self.multipliers(), self.committed().len())
    }

    /// A system without wires and without constraints.
    pub fn new() -> (r: ConstraintSystem)
        ensures
            r.well_formed(),
            r.constraints() == Seq::<Terms>::empty(),
            r.left() == Seq::<Option<nat>>::empty(),
            r.right() == Seq::<Option<nat>>::empty(),
            r.output() == Seq::<Option<nat>>::empty(),
            r.committed() == Seq::<Option<nat>>::empty(),
    {
        let r = ConstraintSystem {
            lc_vec: Vec::new(),
            aL_assignment: Vec::new(),
            aR_assignment: Vec::new(),
            aO_assignment: Vec::new(),
            v_assignment: Vec::new(),
        };
        assert(r.constraints() =~= Seq::<Terms>::empty());
        assert(r.left() =~= Seq::<Option<nat>>::empty());
        assert(r.right() =~= Seq::<Option<nat>>::empty());
        assert(r.output() =~= Seq::<Option<nat>>::empty());
        assert(r.committed() =~= Seq::<Option<nat>>::empty());
        r
    }

    /// Allocates one multiplication gate with the given assignments, and
    /// gives back its three wires. The assignments must be all missing, or
    /// all known with the output the product of the inputs: otherwise
    /// nothing is allocated.
    #[allow(non_snake_case)]
    pub fn assign_a(&mut self, aL_val: Assignment, aR_val: Assignment, aO_val: Assignment) -> (r:
        Result<(Variable, Variable, Variable), R1CSError>)
        requires
            old(self).well_formed(),
        ensures
            final(self).well_formed(),
            final(self).committed() == old(self).committed(),
            final(self).constraints() == old(self).constraints(),
            gate_accepted(aL_val@, aR_val@, aO_val@) ==> {
                &&& r == Ok::<(Variable, Variable, Variable), R1CSError>(
                    (
                        Variable::MultiplierLeft(old(self).multipliers() as usize),
                        Variable::MultiplierRight(old(self).multipliers() as usize),
                        Variable::MultiplierOutput(old(self).multipliers() as usize),
                    ),
                )
                &&& final(self).left() == old(self).left().push(aL_val@)
                &&& final(self).right() == old(self).right().push(aR_val@)
                &&& final(self).output() == old(self).output().push(aO_val@)
            },
            !gate_accepted(aL_val@, aR_val@, aO_val@) ==> {
                &&& r == Err::<(Variable, Variable, Variable), R1CSError>(
                    R1CSError::InvalidAssignment,
                )
                &&& final(self).left() == old(self).left()
                &&& final(self).right() == old(self).right()
                &&& final(self).output() == old(self).output()
            },
    {
        let accepted = match (aL_val, aR_val, aO_val) {
            (Assignment::HasValue(l), Assignment::HasValue(r), Assignment::HasValue(o)) => l * r
                == o,
            (Assignment::Missing, Assignment::Missing, Assignment::Missing) => true,
            _ => false,
        };
        if !accepted {
            return Err(R1CSError::InvalidAssignment);
        }
        let aL_var = self.make_variable(VariableType::aL, aL_val);
        let aR_var = self.make_variable(VariableType::aR, aR_val);
        let aO_var = self.make_variable(VariableType::aO, aO_val);
        proof {
            assert(self.left() =~= old(self).left().push(aL_val@));
            assert(self.right() =~= old(self).right().push(aR_val@));
            assert(self.output() =~= old(self).output().push(aO_val@));
            assert forall|k: int| 0 <= k < self.left().len() implies gate_accepted(
                #[trigger] self.left()[k],
                self.right()[k],
                self.output()[k],
            ) by {
                if k < old(self).left().len() {
                    assert(gate_accepted(
                        old(self).left()[k],
                        old(self).right()[k],
                        old(self).output()[k],
                    ));
                }
            }
        }
        Ok((aL_var, aR_var, aO_var))
    }

    /// Allocates one committed wire with the given assignment.
    pub fn assign_v(&mut self, v_val: Assignment) -> (r: Variable)
        requires
            old(self).well_formed(),
        ensures
            final(self).well_formed(),
            final(self).committed() == old(self).committed().push(v_val@),
            final(self).left() == old(self).left(),
            final(self).right() == old(self).right(),
            final(self).output() == old(self).output(),
            final(self).constraints() == old(self).constraints(),
            r == Variable::Committed(old(self).committed().len() as usize),
    {
        let var = self.make_variable(VariableType::v, v_val);
        proof {
            assert(self.committed() =~= old(self).committed().push(v_val@));
        }
        var
    }

    /// Allocates one wire of the class `var_type`: the next in its class.
    fn make_variable(&mut self, var_type: VariableType, value: Assignment) -> (r: Variable)
        ensures
            final(self).lc_vec == old(self).lc_vec,
            r == Variable::spec_new(
                var_type,
                match var_type {
                    VariableType::aL => old(self).aL_assignment@.len() as usize,
                    VariableType::aR => old(self).aR_assignment@.len() as usize,
                    VariableType::aO => old(self).aO_assignment@.len() as usize,
                    VariableType::v => old(self).v_assignment@.len() as usize,
                },
            ),
            final(self).aL_assignment@ == if var_type == VariableType::aL {
                old(self).aL_assignment@.push(value)
            } else {
                old(self).aL_assignment@
            },
            final(self).aR_assignment@ == if var_type == VariableType::aR {
                old(self).aR_assignment@.push(value)
            } else {
                old(self).aR_assignment@
            },
            final(self).aO_assignment@ == if var_type == VariableType::aO {
                old(self).aO_assignment@.push(value)
            } else {
                old(self).aO_assignment@
            },
            final(self).v_assignment@ == if var_type == VariableType::v {
                old(self).v_assignment@.push(value)
            } else {
                old(self).v_assignment@
            },
            match var_type {
                VariableType::aL => final(self).aL_assignment@.len() <= usize::MAX,
                VariableType::aR => final(self).aR_assignment@.len() <= usize::MAX,
                VariableType::aO => final(self).aO_assignment@.len() <= usize::MAX,
                VariableType::v => final(self).v_assignment@.len() <= usize::MAX,
            },
    {
        let index = match var_type {
            VariableType::aL => {
                self.aL_assignment.push(value);
                self.aL_assignment.len() - 1
            },
            VariableType::aR => {
                self.aR_assignment.push(value);
                self.aR_assignment.len() - 1
            },
            VariableType::aO => {
                self.aO_assignment.push(value);
                self.aO_assignment.len() - 1
            },
            VariableType::v => {
                self.v_assignment.push(value);
                self.v_assignment.len() - 1
            },
        };
        Variable::new(var_type, index)
    }

    /// The number of multiplication gates of the circuit: the number that
    /// were allocated, padded to a power of two.
    pub fn get_n(&self) -> (n: usize)
        requires
            padded_len(self.multipliers()) <= usize::MAX,
        ensures
            n == padded_len(self.multipliers()),
    {
        match checked_padded_len(self.aL_assignment.len()) {
            Some(n) => n,
            None => vstd::pervasive::unreached(),
        }
    }

    /// The number of multiplication gates that were allocated.
    pub fn multiplier_count(&self) -> (n: usize)
        ensures
            n == self.multipliers(),
    {
        self.aL_assignment.len()
    }

    /// The number of committed wires.
    pub fn get_m(&self) -> (m: usize)
        ensures
            m == self.committed().len(),
    {
        self.v_assignment.len()
    }

    /// The commitments to the committed wires with the given blinding
    /// factors. There must be one factor for each wire, and the value of
    /// each wire must be known.
    #[allow(non_snake_case)]
    pub fn make_V(&self, pedersen_gens: &PedersenGens, v_blinding: &Vec<Scalar>) -> (r: Result<
        Vec<CompressedRistretto>,
        R1CSError,
    >)
        ensures
            v_blinding@.len() != self.committed().len() ==> r == Err::<
                Vec<CompressedRistretto>,
                R1CSError,
            >(R1CSError::IncorrectInputSize),
            v_blinding@.len() == self.committed().len() && !all_known(self.committed()) ==> r
                == Err::<Vec<CompressedRistretto>, R1CSError>(R1CSError::MissingAssignment),
            v_blinding@.len() == self.committed().len() && all_known(self.committed()) ==> r is Ok
                && points_view(r->Ok_0@) == commitments_to(
                *pedersen_gens,
                known_values(self.committed()),
                scalars_view(v_blinding@),
            ),
    {
        if v_blinding.len() != self.get_m() {
            return Err(R1CSError::IncorrectInputSize);
        }
        let mut commitments: Vec<CompressedRistretto> = Vec::new();
        let mut i: usize = 0;
        while i < self.v_assignment.len()
            invariant
                i <= self.v_assignment@.len(),
                v_blinding@.len() == self.v_assignment@.len(),
                commitments@.len() == i,
                forall|k: int|
                    0 <= k < i ==> (#[trigger] self.v_assignment@[k])@ is Some && commitments@[k]@
                        == pedersen_gens.spec_commit(
                        self.v_assignment@[k]@.unwrap(),
                        v_blinding@[k]@,
                    ),
            decreases self.v_assignment@.len() - i,
        {
            match self.v_assignment[i] {
                Assignment::HasValue(value) => {
                    commitments.push(pedersen_gens.commit(value, v_blinding[i]));
                },
                Assignment::Missing => {
                    assert(self.committed()[i as int] is None);
                    return Err(R1CSError::MissingAssignment);
                },
            }
            i += 1;
        }
        proof {
            assert forall|k: int| 0 <= k < self.committed().len() implies (
            #[trigger] self.committed()[k]) is Some by {
                assert(self.v_assignment@[k]@ is Some);
            }
            assert(points_view(commitments@) =~= commitments_to(
                *pedersen_gens,
                known_values(self.committed()),
                scalars_view(v_blinding@),
            ));
        }
        Ok(commitments)
    }

    /// Adds the constraint that `lc` is zero. Nothing is evaluated, and any
    /// combination is taken.
    pub fn constrain(&mut self, lc: LinearCombination)
        requires
            old(self).well_formed(),
        ensures
            final(self).well_formed(),
            final(self).constraints() == old(self).constraints().push(lc@),
            final(self).left() == old(self).left(),
            final(self).right() == old(self).right(),
            final(self).output() == old(self).output(),
            final(self).committed() == old(self).committed(),
    {
        self.lc_vec.push(lc);
        proof {
            assert(self.constraints() =~= old(self).constraints().push(lc@));
        }
    }

    /// Whether every constraint is on wires of a system with `n`
    /// multiplication gates and the committed wires of this one.
    pub fn constraints_fit(&self, n: usize) -> (r: bool)
        ensures
            r == constraints_in_range(self.constraints(), n as nat, self.committed().len()),
    {
        let m = self.v_assignment.len();
        let mut i: usize = 0;
        while i < self.lc_vec.len()
            invariant
                i <= self.lc_vec@.len(),
                m == self.v_assignment@.len(),
                forall|j: int|
                    0 <= j < i ==> crate::linear_combination::terms_in_range(
                        #[trigger] self.constraints()[j],
                        n as nat,
                        m as nat,
                    ),
            decreases self.lc_vec@.len() - i,
        {
            if !self.lc_vec[i].is_in_range(n, m) {
                assert(self.lc_vec@[i as int]@ == self.constraints()[i as int]);
                return false;
            }
            assert(self.lc_vec@[i as int]@ == self.constraints()[i as int]);
            i += 1;
        }
        true
    }

    /// Whether the values of the wires satisfy the system. There is an
    /// answer where the value of every wire is known and every constraint
    /// is on wires that are allocated.
    pub fn is_satisfied(&self) -> (r: Option<bool>)
        requires
            self.well_formed(),
        ensures
            r is Some <==> self.all_wires_known() && self.constraints_allocated(),
            r matches Some(holds) ==> holds == satisfied(self.wires(), self.constraints()),
    {
        if !self.constraints_fit(self.aL_assignment.len()) {
            return None;
        }
        let a_l = match collect_values(&self.aL_assignment) {
            Some(values) => values,
            None => { return None; },
        };
        let a_r = match collect_values(&self.aR_assignment) {
            Some(values) => values,
            None => { return None; },
        };
        let a_o = match collect_values(&self.aO_assignment) {
            Some(values) => values,
            None => { return None; },
        };
        let v = match collect_values(&self.v_assignment) {
            Some(values) => values,
            None => { return None; },
        };
        let ghost wires = self.wires();
        proof {
            self.lemma_well_formed();
        }
        let mut i: usize = 0;
        while i < self.lc_vec.len()
            invariant
                i <= self.lc_vec@.len(),
                self.well_formed(),
                self.constraints_allocated(),
                self.all_wires_known(),
                a_r@.len() == a_l@.len(),
                a_o@.len() == a_l@.len(),
                a_l@.len() == self.aL_assignment@.len(),
                v@.len() == self.v_assignment@.len(),
                wires == self.wires(),
                wires.a_l == scalars_view(a_l@),
                wires.a_r == scalars_view(a_r@),
                wires.a_o == scalars_view(a_o@),
                wires.v == scalars_view(v@),
                gates_consistent(wires.a_l, wires.a_r, wires.a_o),
                forall|j: int|
                    0 <= j < i ==> value(#[trigger] self.constraints()[j], wires) == 0,
            decreases self.lc_vec@.len() - i,
        {
            let lc = &self.lc_vec[i];
            assert(lc@ == self.constraints()[i as int]);
            assert(crate::linear_combination::terms_in_range(
                self.constraints()[i as int],
                a_l@.len() as nat,
                v@.len() as nat,
            ));
            let sum = lc.evaluate(&a_l, &a_r, &a_o, &v);
            if !(sum == Scalar::zero()) {
                assert(value(self.constraints()[i as int], wires) != 0);
                return Some(false);
            }
            i += 1;
        }
        Some(true)
    }

    /// Whether the assignment of every wire of the gates is known.
    pub open spec fn gates_known(&self) -> bool {
        &&& all_known(self.left())
        &&& all_known(self.right())
        &&& all_known(self.output())
    }

    /// Whether the prover's input can be made from the system and these
    /// blinding factors: there is one factor for each committed wire, and
    /// the value of every wire is known.
    pub open spec fn has_witness(&self, v_blinding: Seq<Scalar>) -> bool {
        &&& v_blinding.len() == self.committed().len()
        &&& self.all_wires_known()
    }

    /// The prover's input: the values of all wires, and the blinding
    /// factors. A missing assignment of a gate is reported first, then a
    /// wrong number of blinding factors, then a missing assignment of a
    /// committed wire.
    pub fn create_prover_input(&self, v_blinding: &Vec<Scalar>) -> (r: Result<
        ProverInput,
        R1CSError,
    >)
        ensures
            !self.gates_known() ==> r == Err::<ProverInput, R1CSError>(
                R1CSError::MissingAssignment,
            ),
            self.gates_known() && v_blinding@.len() != self.committed().len() ==> r == Err::<
                ProverInput,
                R1CSError,
            >(R1CSError::IncorrectInputSize),
            self.gates_known() && v_blinding@.len() == self.committed().len() && !all_known(
                self.committed(),
            ) ==> r == Err::<ProverInput, R1CSError>(R1CSError::MissingAssignment),
            self.has_witness(v_blinding@) ==> r is Ok && {
                let input = r->Ok_0;
                &&& scalars_view(input.a_L@) == known_values(self.left())
                &&& scalars_view(input.a_R@) == known_values(self.right())
                &&& scalars_view(input.a_O@) == known_values(self.output())
                &&& scalars_view(input.v@) == known_values(self.committed())
                &&& scalars_view(input.v_blinding@) == scalars_view(v_blinding@)
            },
    {
        let a_l = match collect_values(&self.aL_assignment) {
            Some(values) => values,
            None => { return Err(R1CSError::MissingAssignment); },
        };
        let a_r = match collect_values(&self.aR_assignment) {
            Some(values) => values,
            None => { return Err(R1CSError::MissingAssignment); },
        };
        let a_o = match collect_values(&self.aO_assignment) {
            Some(values) => values,
            None => { return Err(R1CSError::MissingAssignment); },
        };
        if v_blinding.len() != self.v_assignment.len() {
            return Err(R1CSError::IncorrectInputSize);
        }
        let v = match collect_values(&self.v_assignment) {
            Some(values) => values,
            None => { return Err(R1CSError::MissingAssignment); },
        };
        let mut blinding: Vec<Scalar> = Vec::new();
        let mut i: usize = 0;
        while i < v_blinding.len()
            invariant
                i <= v_blinding@.len(),
                blinding@ == v_blinding@.take(i as int),
            decreases v_blinding@.len() - i,
        {
            blinding.push(v_blinding[i]);
            proof {
                v_blinding@.lemma_take_succ_push(i as int);
            }
            i += 1;
        }
        assert(v_blinding@.take(i as int) =~= v_blinding@);
        Ok(ProverInput { a_L: a_l, a_R: a_r, a_O: a_o, v, v_blinding: blinding })
    }

    /// The verifier's input: the commitments to the committed wires.
    pub fn create_verifier_input(
        &self,
        pedersen_gens: &PedersenGens,
        v_blinding: &Vec<Scalar>,
    ) -> (r: Result<VerifierInput, R1CSError>)
        ensures
            v_blinding@.len() != self.committed().len() ==> r == Err::<VerifierInput, R1CSError>(
                R1CSError::IncorrectInputSize,
            ),
            v_blinding@.len() == self.committed().len() && !all_known(self.committed()) ==> r
                == Err::<VerifierInput, R1CSError>(R1CSError::MissingAssignment),
            v_blinding@.len() == self.committed().len() && all_known(self.committed()) ==> r is Ok
                && points_view(r->Ok_0.V@) == commitments_to(
                *pedersen_gens,
                known_values(self.committed()),
                scalars_view(v_blinding@),
            ),
    {
        match self.make_V(pedersen_gens, v_blinding) {
            Ok(commitments) => Ok(VerifierInput { V: commitments }),
            Err(e) => Err(e),
        }
    }

    /// The circuit of the system: the matrices of its constraints, with
    /// the multiplication gates padded to a power of two. Every constraint
    /// must be on wires of the circuit.
    pub fn create_circuit(&self) -> (r: Circuit)
        requires
            self.well_formed(),
            padded_len(self.multipliers()) <= usize::MAX,
            self.assemblable(),
        ensures
            r@ == self.circuit(),
            r.well_formed(),
    {
        Circuit::assemble(&self.lc_vec, self.aL_assignment.len(), self.v_assignment.len())
    }

    /// Allocates multiplication gates with the assignments `(0, 0, 0)`
    /// until their number is 0 or a power of two.
    pub fn pad(&mut self)
        requires
            old(self).well_formed(),
            padded_len(old(self).multipliers()) <= usize::MAX,
        ensures
            final(self).well_formed(),
            final(self).multipliers() == padded_len(old(self).multipliers()),
            final(self).left() == old(self).left() + Seq::new(
                (padded_len(old(self).multipliers()) - old(self).multipliers()) as nat,
                |i: int| Some(0nat),
            ),
            final(self).right() == old(self).right() + Seq::new(
                (padded_len(old(self).multipliers()) - old(self).multipliers()) as nat,
                |i: int| Some(0nat),
            ),
            final(self).output() == old(self).output() + Seq::new(
                (padded_len(old(self).multipliers()) - old(self).multipliers()) as nat,
                |i: int| Some(0nat),
            ),
            final(self).committed() == old(self).committed(),
            final(self).constraints() == old(self).constraints(),
    {
        let n0 = self.aL_assignment.len();
        let n = self.get_n();
        proof {
            lemma_padded_len(n0 as nat);
            old(self).lemma_well_formed();
        }
        let zero = Scalar::zero();
        let mut count = n0;
        while count < n
            invariant
                n0 <= count <= n,
                zero@ == 0,
                self.well_formed(),
                self.multipliers() == count,
                self.left() == old(self).left() + Seq::new(
                    (count - n0) as nat,
                    |i: int| Some(0nat),
                ),
                self.right() == old(self).right() + Seq::new(
                    (count - n0) as nat,
                    |i: int| Some(0nat),
                ),
                self.output() == old(self).output() + Seq::new(
                    (count - n0) as nat,
                    |i: int| Some(0nat),
                ),
                self.committed() == old(self).committed(),
                self.constraints() == old(self).constraints(),
            decreases n - count,
        {
            proof {
                assert(0 * 0 == 0);
                vstd::arithmetic::div_mod::lemma_small_mod(0, crate::scalar::group_order());
                assert(gate_accepted(Some(0nat), Some(0nat), Some(0nat)));
            }
            let _ = self.assign_a(
                Assignment::HasValue(zero),
                Assignment::HasValue(zero),
                Assignment::HasValue(zero),
            );
            count += 1;
        }
    }

    /// Finalizes the system: pads the multiplication gates, and gives the
    /// circuit and the inputs of the prover and of the verifier to the
    /// proof protocol. Every constraint must be on wires of the circuit.
    pub fn create_proof_input(self, pedersen_gens: &PedersenGens, v_blinding: Vec<Scalar>) -> (r:
        (Circuit, Result<ProverInput, R1CSError>, Result<VerifierInput, R1CSError>))
        requires
            self.well_formed(),
            padded_len(self.multipliers()) <= usize::MAX,
            self.assemblable(),
        ensures
            r.0@ == self.circuit(),
            r.0.well_formed(),
            !self.gates_known() ==> r.1 == Err::<ProverInput, R1CSError>(
                R1CSError::MissingAssignment,
            ),
            self.gates_known() && v_blinding@.len() != self.committed().len() ==> r.1 == Err::<
                ProverInput,
                R1CSError,
            >(R1CSError::IncorrectInputSize),
            self.gates_known() && v_blinding@.len() == self.committed().len() && !all_known(
                self.committed(),
            ) ==> r.1 == Err::<ProverInput, R1CSError>(R1CSError::MissingAssignment),
            self.has_witness(v_blinding@) ==> r.1 is Ok && {
                let input = r.1->Ok_0;
                let n = padded_len(self.multipliers());
                &&& scalars_view(input.a_L@) == zero_padded(known_values(self.left()), n)
                &&& scalars_view(input.a_R@) == zero_padded(known_values(self.right()), n)
                &&& scalars_view(input.a_O@) == zero_padded(known_values(self.output()), n)
                &&& scalars_view(input.v@) == known_values(self.committed())
                &&& scalars_view(input.v_blinding@) == scalars_view(v_blinding@)
            },
            v_blinding@.len() != self.committed().len() ==> r.2 == Err::<VerifierInput, R1CSError>(
                R1CSError::IncorrectInputSize,
            ),
            v_blinding@.len() == self.committed().len() && !all_known(self.committed()) ==> r.2
                == Err::<VerifierInput, R1CSError>(R1CSError::MissingAssignment),
            v_blinding@.len() == self.committed().len() && all_known(self.committed()) ==> r.2 is Ok
                && points_view(r.2->Ok_0.V@) == commitments_to(
                *pedersen_gens,
                known_values(self.committed()),
                scalars_view(v_blinding@),
            ),
    {
        let mut padded = self;
        proof {
            lemma_padded_len(self.multipliers());
            self.lemma_well_formed();
        }
        padded.pad();
        proof {
            padded.lemma_well_formed();
            lemma_padded_zeros(self.left(), padded.left());
            lemma_padded_zeros(self.right(), padded.right());
            lemma_padded_zeros(self.output(), padded.output());
        }
        let circuit = padded.create_circuit();
        let prover_input = padded.create_prover_input(&v_blinding);
        let verifier_input = padded.create_verifier_input(pedersen_gens, &v_blinding);
        (circuit, prover_input, verifier_input)
    }
}

/// Assignments followed by known zeros are all known exactly if the
/// assignments are, and their values are then followed by zeros.
pub proof fn lemma_padded_zeros(before: Seq<Option<nat>>, after: Seq<Option<nat>>)
    requires
        after.len() >= before.len(),
        after == before + Seq::new((after.len() - before.len()) as nat, |i: int| Some(0nat)),
    ensures
        all_known(after) <==> all_known(before),
        all_known(before) ==> known_values(after) == zero_padded(
            known_values(before),
            after.len(),
        ),
{
    if all_known(after) {
        assert forall|i: int| 0 <= i < before.len() implies (#[trigger] before[i]) is Some by {
            assert(after[i] == before[i]);
        }
    }
    if all_known(before) {
        assert forall|i: int| 0 <= i < after.len() implies (#[trigger] after[i]) is Some by {
            if i < before.len() {
                assert(after[i] == before[i]);
            }
        }
        assert(known_values(after) =~= zero_padded(known_values(before), after.len()));
    }
}

} // verus!
