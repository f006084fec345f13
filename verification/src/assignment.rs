//! Assignments to the wires of a constraint system.
//!
//! The prover knows the value of every wire; the verifier knows none. An
//! [`Assignment`] is either: gadgets compute with assignments, and a missing
//! value stays missing through every operation.

use crate::scalar::field_add;
use crate::scalar::field_mul;
use crate::scalar::field_neg;
use crate::scalar::field_sub;
use crate::scalar::Scalar;
use vstd::prelude::*;
use vstd::std_specs::convert::FromSpecImpl;
use vstd::std_specs::ops::AddSpecImpl;
use vstd::std_specs::ops::MulSpecImpl;
use vstd::std_specs::ops::NegSpecImpl;
use vstd::std_specs::ops::SubSpecImpl;

verus! {

/// The value of a wire, where it is known.
#[derive(Clone, Copy, Debug)]
pub enum Assignment {
    /// The wire has this value.
    HasValue(Scalar),
    /// The value of the wire is not known.
    Missing,
}

impl View for Assignment {
    type V = Option<nat>;

    open spec fn view(&self) -> Option<nat> {
        match self {
            Assignment::HasValue(s) => Some(s@),
            Assignment::Missing => None,
        }
    }
}

/// The sum of two assignments: missing if either is.
pub open spec fn assignment_add(a: Option<nat>, b: Option<nat>) -> Option<nat> {
    match (a, b) {
        (Some(x), Some(y)) => Some(field_add(x, y)),
        _ => None,
    }
}

/// The difference of two assignments: missing if either is.
pub open spec fn assignment_sub(a: Option<nat>, b: Option<nat>) -> Option<nat> {
    match (a, b) {
        (Some(x), Some(y)) => Some(field_sub(x, y)),
        _ => None,
    }
}

/// The product of two assignments: missing if either is.
pub open spec fn assignment_mul(a: Option<nat>, b: Option<nat>) -> Option<nat> {
    match (a, b) {
        (Some(x), Some(y)) => Some(field_mul(x, y)),
        _ => None,
    }
}

/// The negation of an assignment: missing if it is.
pub open spec fn assignment_neg(a: Option<nat>) -> Option<nat> {
    match a {
        Some(x) => Some(field_neg(x)),
        None => None,
    }
}

/// Whether two assignments have the same value: not defined if either is
/// missing.
pub open spec fn assignment_eq(a: Option<nat>, b: Option<nat>) -> Option<bool> {
    match (a, b) {
        (Some(x), Some(y)) => Some(x == y),
        _ => None,
    }
}

/// The views of a vector of assignments.
pub open spec fn assignments_view(assignments: Seq<Assignment>) -> Seq<Option<nat>> {
    assignments.map_values(|a: Assignment| a@)
}

/// Whether none of the assignments is missing.
pub open spec fn all_known(assignments: Seq<Option<nat>>) -> bool {
    forall|i: int| 0 <= i < assignments.len() ==> (#[trigger] assignments[i]) is Some
}

/// Whether all of the assignments are missing.
pub open spec fn all_missing(assignments: Seq<Option<nat>>) -> bool {
    forall|i: int| 0 <= i < assignments.len() ==> (#[trigger] assignments[i]) is None
}

/// The values of assignments of which none is missing.
pub open spec fn known_values(assignments: Seq<Option<nat>>) -> Seq<nat> {
    assignments.map_values(|a: Option<nat>| a.unwrap())
}

/// A missing assignment absorbs: the sum, the difference and the product of
/// a missing assignment with any other, on either side, are missing, and so
/// is its negation; whether it equals another is not defined.
pub proof fn lemma_missing_absorbs(x: Option<nat>)
    ensures
        assignment_add(None, x) is None,
        assignment_add(x, None) is None,
        assignment_sub(None, x) is None,
        assignment_sub(x, None) is None,
        assignment_mul(None, x) is None,
        assignment_mul(x, None) is None,
        assignment_neg(None) is None,
        assignment_eq(None, x) is None,
        assignment_eq(x, None) is None,
{
}

impl Assignment {
    /// Whether the value is missing.
    pub fn is_missing(&self) -> (r: bool)
        ensures
            r == (self@ is None),
    {
        match self {
            Assignment::HasValue(_) => false,
            Assignment::Missing => true,
        }
    }

    /// Whether two assignments have the same value, where both have one.
    pub fn eq_value(&self, other: &Assignment) -> (r: Option<bool>)
        ensures
            r == assignment_eq(self@, other@),
    {
        match (self, other) {
            (Assignment::HasValue(x), Assignment::HasValue(y)) => Some(*x == *y),
            _ => None,
        }
    }
}

impl Default for Assignment {
    fn default() -> (r: Assignment)
        ensures
            r@ is None,
    {
        Assignment::Missing
    }
}

impl From<Scalar> for Assignment {
    fn from(scalar: Scalar) -> (r: Assignment) {
        Assignment::HasValue(scalar)
    }
}

impl FromSpecImpl<Scalar> for Assignment {
    open spec fn obeys_from_spec() -> bool {
        true
    }

    open spec fn from_spec(scalar: Scalar) -> Assignment {
        Assignment::HasValue(scalar)
    }
}

impl From<u64> for Assignment {
    fn from(x: u64) -> (r: Assignment)
        ensures
            r@ == Some(x as nat),
    {
        Assignment::HasValue(Scalar::from_u64(x))
    }
}

// The scalar of the result is stated by the `ensures` of `from`, over its
// view.
impl FromSpecImpl<u64> for Assignment {
    open spec fn obeys_from_spec() -> bool {
        false
    }

    open spec fn from_spec(x: u64) -> Assignment {
        Assignment::Missing
    }
}

impl core::ops::Add for Assignment {
    type Output = Assignment;

    fn add(self, rhs: Assignment) -> (r: Assignment)
        ensures
            r@ == assignment_add(self@, rhs@),
    {
        match (self, rhs) {
            (Assignment::HasValue(x), Assignment::HasValue(y)) => Assignment::HasValue(x + y),
            _ => Assignment::Missing,
        }
    }
}

impl core::ops::Sub for Assignment {
    type Output = Assignment;

    fn sub(self, rhs: Assignment) -> (r: Assignment)
        ensures
            r@ == assignment_sub(self@, rhs@),
    {
        match (self, rhs) {
            (Assignment::HasValue(x), Assignment::HasValue(y)) => Assignment::HasValue(x - y),
            _ => Assignment::Missing,
        }
    }
}

impl core::ops::Mul for Assignment {
    type Output = Assignment;

    fn mul(self, rhs: Assignment) -> (r: Assignment)
        ensures
            r@ == assignment_mul(self@, rhs@),
    {
        match (self, rhs) {
            (Assignment::HasValue(x), Assignment::HasValue(y)) => Assignment::HasValue(x * y),
            _ => Assignment::Missing,
        }
    }
}

impl core::ops::Neg for Assignment {
    type Output = Assignment;

    fn neg(self) -> (r: Assignment)
        ensures
            r@ == assignment_neg(self@),
    {
        match self {
            Assignment::HasValue(x) => Assignment::HasValue(core::ops::Neg::neg(x)),
            Assignment::Missing => Assignment::Missing,
        }
    }
}

impl core::ops::Add<Scalar> for Assignment {
    type Output = Assignment;

    fn add(self, rhs: Scalar) -> (r: Assignment)
        ensures
            r@ == assignment_add(self@, Some(rhs@)),
    {
        match self {
            Assignment::HasValue(x) => Assignment::HasValue(x + rhs),
            Assignment::Missing => Assignment::Missing,
        }
    }
}

impl core::ops::Sub<Scalar> for Assignment {
    type Output = Assignment;

    fn sub(self, rhs: Scalar) -> (r: Assignment)
        ensures
            r@ == assignment_sub(self@, Some(rhs@)),
    {
        match self {
            Assignment::HasValue(x) => Assignment::HasValue(x - rhs),
            Assignment::Missing => Assignment::Missing,
        }
    }
}

impl core::ops::Mul<Scalar> for Assignment {
    type Output = Assignment;

    fn mul(self, rhs: Scalar) -> (r: Assignment)
        ensures
            r@ == assignment_mul(self@, Some(rhs@)),
    {
        match self {
            Assignment::HasValue(x) => Assignment::HasValue(x * rhs),
            Assignment::Missing => Assignment::Missing,
        }
    }
}

// The operators are specified by the `ensures` of their methods, over the
// views of the operands.
impl AddSpecImpl for Assignment {
    open spec fn obeys_add_spec() -> bool {
        false
    }

    open spec fn add_req(self, rhs: Assignment) -> bool {
        true
    }

    open spec fn add_spec(self, rhs: Assignment) -> Assignment {
        Assignment::Missing
    }
}

impl SubSpecImpl for Assignment {
    open spec fn obeys_sub_spec() -> bool {
        false
    }

    open spec fn sub_req(self, rhs: Assignment) -> bool {
        true
    }

    open spec fn sub_spec(self, rhs: Assignment) -> Assignment {
        Assignment::Missing
    }
}

impl MulSpecImpl for Assignment {
    open spec fn obeys_mul_spec() -> bool {
        false
    }

    open spec fn mul_req(self, rhs: Assignment) -> bool {
        true
    }

    open spec fn mul_spec(self, rhs: Assignment) -> Assignment {
        Assignment::Missing
    }
}

impl NegSpecImpl for Assignment {
    open spec fn obeys_neg_spec() -> bool {
        false
    }

    open spec fn neg_req(self) -> bool {
        true
    }

    open spec fn neg_spec(self) -> Assignment {
        Assignment::Missing
    }
}

impl AddSpecImpl<Scalar> for Assignment {
    open spec fn obeys_add_spec() -> bool {
        false
    }

    open spec fn add_req(self, rhs: Scalar) -> bool {
        true
    }

    open spec fn add_spec(self, rhs: Scalar) -> Assignment {
        Assignment::Missing
    }
}

impl SubSpecImpl<Scalar> for Assignment {
    open spec fn obeys_sub_spec() -> bool {
        false
    }

    open spec fn sub_req(self, rhs: Scalar) -> bool {
        true
    }

    open spec fn sub_spec(self, rhs: Scalar) -> Assignment {
        Assignment::Missing
    }
}

impl MulSpecImpl<Scalar> for Assignment {
    open spec fn obeys_mul_spec() -> bool {
        false
    }

    open spec fn mul_req(self, rhs: Scalar) -> bool {
        true
    }

    open spec fn mul_spec(self, rhs: Scalar) -> Assignment {
        Assignment::Missing
    }
}

} // verus!
