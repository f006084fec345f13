//! The surface that gadgets build against.
//!
//! A gadget allocates wires and adds constraints through
//! [`ConstraintSystem`], and so runs unchanged on the prover's system and
//! on the verifier's. What it builds is the [`Shape`] of the system: the
//! contract of every operation gives the new shape as a function of the old
//! one and of the arguments, whatever the side.

use crate::assignment::Assignment;
use crate::assignment::assignment_mul;
use crate::circuit::circuit_of;
use crate::circuit::CircuitView;
use crate::circuit::constraints_in_range;
use crate::circuit::padded_len;
use crate::errors::R1CSError;
use crate::linear_combination::terms_in_range;
use crate::linear_combination::LinearCombination;
use crate::linear_combination::Terms;
use crate::scalar::Scalar;
use crate::transcript::challenge_scalar_of;
use crate::transcript::state_after_challenge;
use crate::variable::Variable;
use vstd::prelude::*;

verus! {

/// What a gadget has built: the wires that are allocated, and the
/// constraints.
#[verifier::ext_equal]
pub struct Shape {
    /// The number of multiplication gates.
    pub multipliers: nat,
    /// The number of committed wires.
    pub committed: nat,
    /// The constraints, in the order in which they were added.
    pub constraints: Seq<Terms>,
}

impl Shape {
    /// The shape with one more multiplication gate.
    pub open spec fn with_multiplier(self) -> Shape {
        Shape { multipliers: self.multipliers + 1, ..self }
    }

    /// The shape with one more constraint.
    pub open spec fn with_constraint(self, terms: Terms) -> Shape {
        Shape { constraints: self.constraints.push(terms), ..self }
    }

    /// Whether the numbers of wires fit a `usize`.
    pub open spec fn well_formed(self) -> bool {
        &&& self.multipliers <= usize::MAX
        &&& self.committed <= usize::MAX
    }

    /// Whether every constraint is on wires that are allocated.
    pub open spec fn constraints_allocated(self) -> bool {
        constraints_in_range(self.constraints, self.multipliers, self.committed)
    }

    /// Whether every constraint is on wires of the circuit: the gates that
    /// are allocated, those that padding adds, and the committed wires.
    pub open spec fn assemblable(self) -> bool {
        constraints_in_range(self.constraints, padded_len(self.multipliers), self.committed)
    }

    /// Constraints on allocated wires are on wires of the circuit, and stay
    /// on allocated wires when a gate is allocated.
    pub proof fn lemma_constraints_allocated(self)
        requires
            self.constraints_allocated(),
        ensures
            self.assemblable(),
            self.with_multiplier().constraints_allocated(),
    {
        crate::circuit::lemma_padded_len(self.multipliers);
        assert forall|i: int| 0 <= i < self.constraints.len() implies terms_in_range(
            #[trigger] self.constraints[i],
            padded_len(self.multipliers),
            self.committed,
        ) && terms_in_range(self.constraints[i], self.multipliers + 1, self.committed) by {
            assert(terms_in_range(self.constraints[i], self.multipliers, self.committed));
        }
    }

    /// A further constraint on allocated wires keeps the constraints on
    /// allocated wires.
    pub proof fn lemma_with_constraint_allocated(self, terms: Terms)
        requires
            self.constraints_allocated(),
            terms_in_range(terms, self.multipliers, self.committed),
        ensures
            self.with_constraint(terms).constraints_allocated(),
    {
        let after = self.with_constraint(terms).constraints;
        assert forall|i: int| 0 <= i < after.len() implies terms_in_range(
            #[trigger] after[i],
            self.multipliers,
            self.committed,
        ) by {
            if i < self.constraints.len() {
                assert(after[i] == self.constraints[i]);
            }
        }
    }

    /// The circuit of a system with this shape.
    pub open spec fn circuit(self) -> CircuitView {
        circuit_of(self.constraints, self.multipliers, self.committed)
    }

    /// The three wires of the next multiplication gate.
    pub open spec fn next_multiplier(self) -> (Variable, Variable, Variable) {
        (
            Variable::MultiplierLeft(self.multipliers as usize),
            Variable::MultiplierRight(self.multipliers as usize),
            Variable::MultiplierOutput(self.multipliers as usize),
        )
    }
}

/// A constraint system, as a gadget sees it.
pub trait ConstraintSystem {
    /// The invariant of the system.
    spec fn well_formed(&self) -> bool;

    /// What has been built.
    spec fn shape(&self) -> Shape;

    /// What the transcript holds.
    spec fn transcript(&self) -> Seq<u8>;

    /// Whether this side takes these assignments for one multiplication
    /// gate.
    spec fn accepts(left: Option<nat>, right: Option<nat>, out: Option<nat>) -> bool;

    /// In a system that meets its invariant, the numbers of wires fit a
    /// `usize`.
    proof fn lemma_shape_well_formed(&self)
        requires
            self.well_formed(),
        ensures
            self.shape().well_formed(),
    ;

    /// No side takes a gate of which some assignments are known and others
    /// are missing.
    proof fn lemma_accepts_unmixed(left: Option<nat>, right: Option<nat>, out: Option<nat>)
        requires
            Self::accepts(left, right, out),
        ensures
            (left is Some && right is Some && out is Some) || (left is None && right is None && out
                is None),
    ;

    /// Allocates one multiplication gate with the given assignments and
    /// gives back its left, right and output wire. Where this side does not
    /// take the assignments, nothing is allocated.
    fn assign_multiplier(&mut self, left: Assignment, right: Assignment, out: Assignment) -> (r:
        Result<(Variable, Variable, Variable), R1CSError>)
        requires
            old(self).well_formed(),
        ensures
            final(self).well_formed(),
            final(self).transcript() == old(self).transcript(),
            Self::accepts(left@, right@, out@) ==> r == Ok::<
                (Variable, Variable, Variable),
                R1CSError,
            >(old(self).shape().next_multiplier()) && final(self).shape() == old(
                self,
            ).shape().with_multiplier(),
            !Self::accepts(left@, right@, out@) ==> r == Err::<
                (Variable, Variable, Variable),
                R1CSError,
            >(R1CSError::InvalidAssignment) && final(self).shape() == old(self).shape(),
    ;

    /// Allocates one multiplication gate whose inputs have the given
    /// assignments and whose output has their product, and gives back the
    /// two input wires.
    fn assign_uncommitted(&mut self, val_1: Assignment, val_2: Assignment) -> (r: Result<
        (Variable, Variable),
        R1CSError,
    >)
        requires
            old(self).well_formed(),
        ensures
            final(self).well_formed(),
            final(self).transcript() == old(self).transcript(),
            Self::accepts(val_1@, val_2@, assignment_mul(val_1@, val_2@)) ==> r == Ok::<
                (Variable, Variable),
                R1CSError,
            >((old(self).shape().next_multiplier().0, old(self).shape().next_multiplier().1))
                && final(self).shape() == old(self).shape().with_multiplier(),
            !Self::accepts(val_1@, val_2@, assignment_mul(val_1@, val_2@)) ==> r == Err::<
                (Variable, Variable),
                R1CSError,
            >(R1CSError::InvalidAssignment) && final(self).shape() == old(self).shape(),
    ;

    /// Adds the constraint that `lc` is zero. Nothing is evaluated, and any
    /// combination is taken.
    fn add_constraint(&mut self, lc: LinearCombination)
        requires
            old(self).well_formed(),
        ensures
            final(self).well_formed(),
            final(self).transcript() == old(self).transcript(),
            final(self).shape() == old(self).shape().with_constraint(lc@),
    ;

    /// Draws a challenge scalar from the transcript, under `label`.
    fn challenge_scalar(&mut self, label: &'static [u8]) -> (r: Scalar)
        requires
            old(self).well_formed(),
        ensures
            final(self).well_formed(),
            final(self).shape() == old(self).shape(),
            r@ == challenge_scalar_of(old(self).transcript(), label@),
            final(self).transcript() == state_after_challenge(old(self).transcript(), label@),
    ;
}

/// Two systems of the same shape have the same circuit, whatever their
/// sides and whatever they know of the values of the wires.
pub proof fn lemma_matrix_agreement<A: ConstraintSystem, B: ConstraintSystem>(a: &A, b: &B)
    requires
        a.shape() == b.shape(),
    ensures
        a.shape().circuit() == b.shape().circuit(),
{
}

/// Two systems whose transcripts hold the same draw the same challenge
/// scalar under the same label, and their transcripts hold the same
/// afterwards.
pub proof fn lemma_challenge_agreement<A: ConstraintSystem, B: ConstraintSystem>(
    a: &A,
    b: &B,
    label: Seq<u8>,
)
    requires
        a.transcript() == b.transcript(),
    ensures
        challenge_scalar_of(a.transcript(), label) == challenge_scalar_of(b.transcript(), label),
        state_after_challenge(a.transcript(), label) == state_after_challenge(
            b.transcript(),
            label,
        ),
{
}

} // verus!
