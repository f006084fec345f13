//! Linear combinations of wires.
//!
//! A linear combination is a sequence of terms, each a wire with a
//! coefficient; a term on the constant wire stands for its coefficient. It
//! is kept as it was written: terms on the same wire are summed only when
//! the matrices of a circuit are assembled, by [`weight`].

use crate::scalar::field_add;
use crate::scalar::field_mul;
use crate::scalar::field_neg;
use crate::scalar::group_order;
use crate::scalar::Scalar;
use crate::variable::Variable;
use vstd::prelude::*;
use vstd::std_specs::ops::AddSpecImpl;
use vstd::std_specs::ops::MulSpecImpl;
use vstd::std_specs::ops::NegSpecImpl;

verus! {

/// The terms of a linear combination, as a wire and the integer of its
/// coefficient.
pub type Terms = Seq<(Variable, nat)>;

/// The terms that a vector of wires and coefficients stands for.
pub open spec fn terms_view(terms: Seq<(Variable, Scalar)>) -> Terms {
    terms.map_values(|t: (Variable, Scalar)| (t.0, t.1@))
}

/// What one term adds to the matrix entry of the wire `target`: nothing if
/// it is on another wire, its coefficient if `target` is a committed wire or
/// the constant, and the negated coefficient if `target` is a multiplier
/// wire.
pub open spec fn term_weight(term: (Variable, nat), target: Variable) -> nat {
    if term.0 != target {
        0
    } else {
        match target {
            Variable::Committed(_) => term.1,
            Variable::One() => term.1,
            _ => field_neg(term.1),
        }
    }
}

/// What a term adds to the entry of its own wire.
pub open spec fn term_weight_of(term: (Variable, nat)) -> nat {
    term_weight(term, term.0)
}

/// The matrix entry of the wire `target` in the row of a constraint with
/// these terms: the sum, in the field, of what each term adds to it.
pub open spec fn weight(terms: Terms, target: Variable) -> nat
    decreases terms.len(),
{
    if terms.len() == 0 {
        0
    } else {
        field_add(weight(terms.drop_last(), target), term_weight(terms.last(), target))
    }
}

/// Whether every term is on a wire of a system with `n` multiplication gates
/// and `m` committed wires.
pub open spec fn terms_in_range(terms: Terms, n: nat, m: nat) -> bool {
    forall|j: int| 0 <= j < terms.len() ==> (#[trigger] terms[j]).0.in_range(n, m)
}

/// The terms with every coefficient multiplied by `factor`.
pub open spec fn scaled(terms: Terms, factor: nat) -> Terms {
    terms.map_values(|t: (Variable, nat)| (t.0, field_mul(t.1, factor)))
}

/// The terms with every coefficient negated.
pub open spec fn negated(terms: Terms) -> Terms {
    terms.map_values(|t: (Variable, nat)| (t.0, field_neg(t.1)))
}

/// The terms on wires other than the constant, in their order.
pub open spec fn wire_terms(terms: Terms) -> Terms {
    terms.filter(|t: (Variable, nat)| t.0 != Variable::One())
}

/// The values of the wires of a constraint system.
pub struct Wires {
    /// The left inputs of the multiplication gates.
    pub a_l: Seq<nat>,
    /// The right inputs of the multiplication gates.
    pub a_r: Seq<nat>,
    /// The outputs of the multiplication gates.
    pub a_o: Seq<nat>,
    /// The committed wires.
    pub v: Seq<nat>,
}

/// The value of a wire. The constant wire has the value 1.
pub open spec fn wire_value(var: Variable, wires: Wires) -> nat {
    match var {
        Variable::Committed(i) => wires.v[i as int],
        Variable::MultiplierLeft(i) => wires.a_l[i as int],
        Variable::MultiplierRight(i) => wires.a_r[i as int],
        Variable::MultiplierOutput(i) => wires.a_o[i as int],
        Variable::One() => 1,
    }
}

/// The value of a linear combination: the sum, in the field, of the
/// products of each coefficient with the value of its wire.
pub open spec fn value(terms: Terms, wires: Wires) -> nat
    decreases terms.len(),
{
    if terms.len() == 0 {
        0
    } else {
        field_add(
            value(terms.drop_last(), wires),
            field_mul(terms.last().1, wire_value(terms.last().0, wires)),
        )
    }
}

/// The value of a linear combination is a reduced field element.
pub proof fn lemma_value_reduced(terms: Terms, wires: Wires)
    ensures
        value(terms, wires) < group_order(),
{
}

/// A weight is a reduced field element.
pub proof fn lemma_weight_reduced(terms: Terms, target: Variable)
    ensures
        weight(terms, target) < group_order(),
{
}

/// A further term adds its own weight to the entry of its wire, and leaves
/// the entries of all other wires as they were.
pub proof fn lemma_weight_push(terms: Terms, term: (Variable, nat), target: Variable)
    ensures
        weight(terms.push(term), target) == field_add(
            weight(terms, target),
            term_weight(term, target),
        ),
        term.0 != target ==> weight(terms.push(term), target) == weight(terms, target),
{
    assert(terms.push(term).drop_last() =~= terms);
    lemma_weight_reduced(terms, target);
    vstd::arithmetic::div_mod::lemma_small_mod(weight(terms, target), group_order());
}

/// A sum of terms on the constant wire and other wires: `c_0 * w_0 + ... `.
#[derive(Debug, PartialEq, Eq)]
pub struct LinearCombination {
    terms: Vec<(Variable, Scalar)>,
}

impl View for LinearCombination {
    type V = Terms;

    closed spec fn view(&self) -> Terms {
        terms_view(self.terms@)
    }
}

impl LinearCombination {
    /// Whether every term is on a wire of a system with `n` multiplication
    /// gates and `m` committed wires.
    pub open spec fn in_range(&self, n: nat, m: nat) -> bool {
        terms_in_range(self@, n, m)
    }

    /// Whether every term is on a wire of a system with `n` multiplication
    /// gates and `m` committed wires.
    pub fn is_in_range(&self, n: usize, m: usize) -> (r: bool)
        ensures
            r == self.in_range(n as nat, m as nat),
    {
        let mut j: usize = 0;
        while j < self.terms.len()
            invariant
                j <= self.terms.len(),
                self@ == terms_view(self.terms@),
                forall|k: int| 0 <= k < j ==> (#[trigger] self@[k]).0.in_range(n as nat, m as nat),
            decreases self.terms.len() - j,
        {
            if !self.terms[j].0.is_in_range(n, m) {
                assert(!self@[j as int].0.in_range(n as nat, m as nat));
                return false;
            }
            j += 1;
        }
        true
    }

    /// The combination `variables[0].1 * variables[0].0 + ... + constant`.
    pub fn new(variables: Vec<(Variable, Scalar)>, constant: Scalar) -> (r: LinearCombination)
        ensures
            r@ == terms_view(variables@).push((Variable::One(), constant@)),
    {
        let mut terms = variables;
        terms.push((Variable::One(), constant));
        assert(terms_view(terms@) =~= terms_view(variables@).push((Variable::One(), constant@)));
        LinearCombination { terms }
    }

    /// The combination without terms.
    pub fn zero() -> (r: LinearCombination)
        ensures
            r@ == Seq::<(Variable, nat)>::empty(),
    {
        let terms: Vec<(Variable, Scalar)> = Vec::new();
        assert(terms_view(terms@) =~= Seq::<(Variable, nat)>::empty());
        LinearCombination { terms }
    }

    /// The combination with these terms, in their order.
    pub fn from_terms(terms: Vec<(Variable, Scalar)>) -> (r: LinearCombination)
        ensures
            r@ == terms_view(terms@),
    {
        LinearCombination { terms }
    }

    /// The terms, in their order.
    pub fn terms(&self) -> (r: &Vec<(Variable, Scalar)>)
        ensures
            terms_view(r@) == self@,
    {
        &self.terms
    }

    /// The terms on wires other than the constant, in their order.
    pub fn get_variables(&self) -> (r: Vec<(Variable, Scalar)>)
        ensures
            terms_view(r@) == wire_terms(self@),
    {
        let mut out: Vec<(Variable, Scalar)> = Vec::new();
        let mut j: usize = 0;
        let ghost pred = |t: (Variable, nat)| t.0 != Variable::One();
        assert(self@.take(0) =~= Seq::<(Variable, nat)>::empty());
        assert(terms_view(out@) =~= self@.take(0).filter(pred));
        while j < self.terms.len()
            invariant
                j <= self.terms.len(),
                self@ == terms_view(self.terms@),
                pred == |t: (Variable, nat)| t.0 != Variable::One(),
                terms_view(out@) == self@.take(j as int).filter(pred),
            decreases self.terms.len() - j,
        {
            let term = self.terms[j];
            proof {
                self@.lemma_take_succ_push(j as int);
                self@.take(j as int).lemma_filter_push(self@[j as int], pred);
            }
            match term.0 {
                Variable::One() => {},
                _ => {
                    let ghost before = out@;
                    out.push(term);
                    assert(terms_view(out@) =~= terms_view(before).push((term.0, term.1@)));
                },
            }
            j += 1;
        }
        assert(self@.take(j as int) =~= self@);
        out
    }

    /// The value of the combination where the wires have the given values.
    /// Every term must be on one of these wires.
    pub fn evaluate(
        &self,
        a_l: &Vec<Scalar>,
        a_r: &Vec<Scalar>,
        a_o: &Vec<Scalar>,
        v: &Vec<Scalar>,
    ) -> (r: Scalar)
        requires
            a_r@.len() == a_l@.len(),
            a_o@.len() == a_l@.len(),
            self.in_range(a_l@.len(), v@.len()),
        ensures
            r@ == value(
                self@,
                Wires {
                    a_l: a_l@.map_values(|s: Scalar| s@),
                    a_r: a_r@.map_values(|s: Scalar| s@),
                    a_o: a_o@.map_values(|s: Scalar| s@),
                    v: v@.map_values(|s: Scalar| s@),
                },
            ),
    {
        let ghost wires = Wires {
            a_l: a_l@.map_values(|s: Scalar| s@),
            a_r: a_r@.map_values(|s: Scalar| s@),
            a_o: a_o@.map_values(|s: Scalar| s@),
            v: v@.map_values(|s: Scalar| s@),
        };
        let mut sum = Scalar::zero();
        let mut j: usize = 0;
        assert(self@.take(0) =~= Seq::<(Variable, nat)>::empty());
        while j < self.terms.len()
            invariant
                j <= self.terms.len(),
                self@ == terms_view(self.terms@),
                a_r@.len() == a_l@.len(),
                a_o@.len() == a_l@.len(),
                self.in_range(a_l@.len(), v@.len()),
                wires == (Wires {
                    a_l: a_l@.map_values(|s: Scalar| s@),
                    a_r: a_r@.map_values(|s: Scalar| s@),
                    a_o: a_o@.map_values(|s: Scalar| s@),
                    v: v@.map_values(|s: Scalar| s@),
                }),
                sum@ == value(self@.take(j as int), wires),
            decreases self.terms.len() - j,
        {
            let term = self.terms[j];
            proof {
                self@.lemma_take_succ_push(j as int);
                assert(self@.take(j + 1).drop_last() =~= self@.take(j as int));
                assert(self@[j as int].0.in_range(a_l@.len(), v@.len()));
            }
            let wire = match term.0 {
                Variable::Committed(i) => v[i],
                Variable::MultiplierLeft(i) => a_l[i],
                Variable::MultiplierRight(i) => a_r[i],
                Variable::MultiplierOutput(i) => a_o[i],
                Variable::One() => Scalar::one(),
            };
            sum = sum + term.1 * wire;
            j += 1;
        }
        assert(self@.take(j as int) =~= self@);
        sum
    }

    /// The constant of the combination: the sum of the coefficients of its
    /// terms on the constant wire.
    pub fn get_constant(&self) -> (r: Scalar)
        ensures
            r@ == weight(self@, Variable::One()),
    {
        let mut sum = Scalar::zero();
        let mut j: usize = 0;
        assert(self@.take(0) =~= Seq::<(Variable, nat)>::empty());
        while j < self.terms.len()
            invariant
                j <= self.terms.len(),
                self@ == terms_view(self.terms@),
                sum@ == weight(self@.take(j as int), Variable::One()),
            decreases self.terms.len() - j,
        {
            let term = self.terms[j];
            proof {
                self@.lemma_take_succ_push(j as int);
                lemma_weight_push(self@.take(j as int), self@[j as int], Variable::One());
            }
            match term.0 {
                Variable::One() => {
                    sum = sum + term.1;
                },
                _ => {},
            }
            j += 1;
        }
        assert(self@.take(j as int) =~= self@);
        sum
    }
}

impl Clone for LinearCombination {
    /// A combination with the same terms.
    fn clone(&self) -> (r: LinearCombination)
        ensures
            r@ == self@,
    {
        let mut terms: Vec<(Variable, Scalar)> = Vec::new();
        let mut j: usize = 0;
        while j < self.terms.len()
            invariant
                j <= self.terms.len(),
                terms@ == self.terms@.take(j as int),
            decreases self.terms.len() - j,
        {
            terms.push(self.terms[j]);
            proof {
                self.terms@.lemma_take_succ_push(j as int);
            }
            j += 1;
        }
        assert(self.terms@.take(j as int) =~= self.terms@);
        LinearCombination { terms }
    }
}

impl Default for LinearCombination {
    fn default() -> (r: LinearCombination)
        ensures
            r@ == Seq::<(Variable, nat)>::empty(),
    {
        LinearCombination::zero()
    }
}

impl core::ops::Add for LinearCombination {
    type Output = LinearCombination;

    /// The terms of `self`, then those of `rhs`.
    fn add(self, rhs: LinearCombination) -> (r: LinearCombination)
        ensures
            r@ == self@ + rhs@,
    {
        let mut terms = self.terms;
        let mut j: usize = 0;
        while j < rhs.terms.len()
            invariant
                j <= rhs.terms.len(),
                terms@ == self.terms@ + rhs.terms@.take(j as int),
            decreases rhs.terms.len() - j,
        {
            terms.push(rhs.terms[j]);
            proof {
                rhs.terms@.lemma_take_succ_push(j as int);
            }
            j += 1;
        }
        assert(rhs.terms@.take(j as int) =~= rhs.terms@);
        assert(terms_view(terms@) =~= terms_view(self.terms@) + terms_view(rhs.terms@));
        LinearCombination { terms }
    }
}

impl core::ops::Mul<Scalar> for LinearCombination {
    type Output = LinearCombination;

    /// Every coefficient multiplied by `rhs`.
    fn mul(self, rhs: Scalar) -> (r: LinearCombination)
        ensures
            r@ == scaled(self@, rhs@),
    {
        let mut terms: Vec<(Variable, Scalar)> = Vec::new();
        let mut j: usize = 0;
        while j < self.terms.len()
            invariant
                j <= self.terms.len(),
                terms@.len() == j,
                forall|k: int|
                    0 <= k < j ==> (#[trigger] terms@[k]).0 == self.terms@[k].0 && terms@[k].1@
                        == field_mul(self.terms@[k].1@, rhs@),
            decreases self.terms.len() - j,
        {
            let term = self.terms[j];
            terms.push((term.0, term.1 * rhs));
            j += 1;
        }
        assert(terms_view(terms@) =~= scaled(terms_view(self.terms@), rhs@));
        LinearCombination { terms }
    }
}

impl core::ops::Neg for LinearCombination {
    type Output = LinearCombination;

    /// Every coefficient negated.
    fn neg(self) -> (r: LinearCombination)
        ensures
            r@ == negated(self@),
    {
        let mut terms: Vec<(Variable, Scalar)> = Vec::new();
        let mut j: usize = 0;
        while j < self.terms.len()
            invariant
                j <= self.terms.len(),
                terms@.len() == j,
                forall|k: int|
                    0 <= k < j ==> (#[trigger] terms@[k]).0 == self.terms@[k].0 && terms@[k].1@
                        == field_neg(self.terms@[k].1@),
            decreases self.terms.len() - j,
        {
            let term = self.terms[j];
            terms.push((term.0, core::ops::Neg::neg(term.1)));
            j += 1;
        }
        assert(terms_view(terms@) =~= negated(terms_view(self.terms@)));
        LinearCombination { terms }
    }
}

// The operators are specified by the `ensures` of their methods, over the
// terms of the operands.
impl AddSpecImpl for LinearCombination {
    open spec fn obeys_add_spec() -> bool {
        false
    }

    open spec fn add_req(self, rhs: LinearCombination) -> bool {
        true
    }

    open spec fn add_spec(self, rhs: LinearCombination) -> LinearCombination {
        self
    }
}

impl MulSpecImpl<Scalar> for LinearCombination {
    open spec fn obeys_mul_spec() -> bool {
        false
    }

    open spec fn mul_req(self, rhs: Scalar) -> bool {
        true
    }

    open spec fn mul_spec(self, rhs: Scalar) -> LinearCombination {
        self
    }
}

impl NegSpecImpl for LinearCombination {
    open spec fn obeys_neg_spec() -> bool {
        false
    }

    open spec fn neg_req(self) -> bool {
        true
    }

    open spec fn neg_spec(self) -> LinearCombination {
        self
    }
}

} // verus!
