//! The matrix form of a constraint system.
//!
//! A circuit is the tuple `(n, m, q, c, W_L, W_R, W_O, W_V)`: `n`
//! multiplication gates, padded to a power of two, `m` committed wires and
//! `q` constraints. Row `i` of the matrices and entry `i` of `c` hold the
//! [`weight`]s of the wires in the `i`-th constraint.

use crate::generators::CompressedRistretto;
use crate::linear_combination::lemma_weight_push;
use crate::linear_combination::LinearCombination;
use crate::linear_combination::term_weight_of;
use crate::linear_combination::Terms;
use crate::linear_combination::terms_view;
use crate::linear_combination::weight;
use crate::scalar::field_add;
use crate::scalar::Scalar;
use crate::variable::Variable;
use crate::variable::VariableType;
use vstd::prelude::*;

verus! {

/// Whether `n` is a power of two.
pub open spec fn is_power_of_two(n: nat) -> bool
    decreases n,
{
    n == 1 || (n > 1 && n % 2 == 0 && is_power_of_two(n / 2))
}

/// The least power of two that is at least `n`.
pub open spec fn next_power_of_two(n: nat) -> nat
    decreases n,
{
    if n <= 1 {
        1
    } else {
        2 * next_power_of_two((n + 1) / 2)
    }
}

/// The number of multiplication gates of the circuit of a system that
/// allocated `n0` of them: `n0` itself if it is 0 or a power of two, and
/// the next power of two otherwise.
pub open spec fn padded_len(n0: nat) -> nat {
    if n0 == 0 {
        0
    } else {
        next_power_of_two(n0)
    }
}

/// `next_power_of_two(n)` is a power of two, at least `n`, and less than
/// twice `n` unless `n` is 0.
pub proof fn lemma_next_power_of_two(n: nat)
    ensures
        is_power_of_two(next_power_of_two(n)),
        next_power_of_two(n) >= n,
        n > 0 ==> next_power_of_two(n) < 2 * n,
    decreases n,
{
    if n > 1 {
        lemma_next_power_of_two((n + 1) / 2);
        let h = next_power_of_two((n + 1) / 2);
        assert((2 * h) / 2 == h);
        assert((2 * h) % 2 == 0);
    }
}

/// No power of two lies between `n` and `next_power_of_two(n)`.
pub proof fn lemma_next_power_of_two_least(n: nat, p: nat)
    requires
        is_power_of_two(p),
        p >= n,
    ensures
        next_power_of_two(n) <= p,
    decreases n,
{
    if n > 1 {
        lemma_next_power_of_two_least((n + 1) / 2, p / 2);
    }
}

/// The padding rule: 0 and the powers of two stay as they are; any other
/// count becomes the least power of two above it.
pub proof fn lemma_padded_len(n0: nat)
    ensures
        n0 == 0 || is_power_of_two(n0) ==> padded_len(n0) == n0,
        padded_len(n0) >= n0,
        padded_len(n0) <= 2 * n0,
        padded_len(padded_len(n0)) == padded_len(n0),
        n0 > 0 ==> is_power_of_two(padded_len(n0)),
        forall|p: nat| is_power_of_two(p) && p >= n0 && n0 > 0 ==> padded_len(n0) <= p,
{
    lemma_next_power_of_two(n0);
    if is_power_of_two(n0) {
        lemma_next_power_of_two_least(n0, n0);
    }
    if n0 > 0 {
        let p = padded_len(n0);
        lemma_next_power_of_two(p);
        lemma_next_power_of_two_least(p, p);
    }
    assert forall|p: nat| is_power_of_two(p) && p >= n0 && n0 > 0 implies padded_len(n0) <= p by {
        lemma_next_power_of_two_least(n0, p);
    }
}

/// The least power of two that is at least `n`, if it fits a `usize`.
pub fn checked_next_power_of_two(n: usize) -> (r: Option<usize>)
    ensures
        match r {
            Some(p) => p == next_power_of_two(n as nat),
            None => next_power_of_two(n as nat) > usize::MAX,
        },
    decreases n,
{
    if n <= 1 {
        Some(1)
    } else {
        let half = (n - 1) / 2 + 1;
        assert(half == (n as nat + 1) / 2);
        match checked_next_power_of_two(half) {
            Some(h) => h.checked_mul(2),
            None => None,
        }
    }
}

/// The padded number of multiplication gates, if it fits a `usize`.
pub fn checked_padded_len(n0: usize) -> (r: Option<usize>)
    ensures
        match r {
            Some(n) => n == padded_len(n0 as nat),
            None => padded_len(n0 as nat) > usize::MAX,
        },
{
    if n0 == 0 {
        Some(0)
    } else {
        checked_next_power_of_two(n0)
    }
}

/// The integers of a vector of scalars.
pub open spec fn scalars_view(scalars: Seq<Scalar>) -> Seq<nat> {
    scalars.map_values(|s: Scalar| s@)
}

/// The integers of a matrix of scalars.
pub open spec fn matrix_view(rows: Seq<Vec<Scalar>>) -> Seq<Seq<nat>> {
    rows.map_values(|row: Vec<Scalar>| scalars_view(row@))
}

/// The terms of each of a sequence of constraints.
pub open spec fn constraints_view(constraints: Seq<LinearCombination>) -> Seq<Terms> {
    constraints.map_values(|lc: LinearCombination| lc@)
}

/// Whether every constraint is on wires of a system with `n` multiplication
/// gates and `m` committed wires.
pub open spec fn constraints_in_range(constraints: Seq<Terms>, n: nat, m: nat) -> bool {
    forall|i: int|
        0 <= i < constraints.len() ==> crate::linear_combination::terms_in_range(
            #[trigger] constraints[i],
            n,
            m,
        )
}

/// The `k`-th wire of a class.
pub open spec fn wire(class: VariableType, k: int) -> Variable {
    Variable::spec_new(class, k as usize)
}

/// The row of a constraint in the matrix of one class of wire: entry `k` is
/// the weight of the `k`-th wire of that class.
pub open spec fn row_weights(terms: Terms, class: VariableType, len: nat) -> Seq<nat> {
    Seq::new(len, |k: int| weight(terms, wire(class, k)))
}

/// A circuit as mathematical matrices.
#[verifier::ext_equal]
pub struct CircuitView {
    pub n: nat,
    pub m: nat,
    pub q: nat,
    pub c: Seq<nat>,
    pub w_l: Seq<Seq<nat>>,
    pub w_r: Seq<Seq<nat>>,
    pub w_o: Seq<Seq<nat>>,
    pub w_v: Seq<Seq<nat>>,
}

/// The circuit with `n` multiplication gates and `m` committed wires whose
/// rows are the given constraints.
pub open spec fn circuit_with(constraints: Seq<Terms>, n: nat, m: nat) -> CircuitView {
    CircuitView {
        n,
        m,
        q: constraints.len(),
        c: Seq::new(constraints.len(), |i: int| weight(constraints[i], Variable::One())),
        w_l: Seq::new(constraints.len(), |i: int| row_weights(constraints[i], VariableType::aL, n)),
        w_r: Seq::new(constraints.len(), |i: int| row_weights(constraints[i], VariableType::aR, n)),
        w_o: Seq::new(constraints.len(), |i: int| row_weights(constraints[i], VariableType::aO, n)),
        w_v: Seq::new(constraints.len(), |i: int| row_weights(constraints[i], VariableType::v, m)),
    }
}

/// The circuit of a system that allocated `n0` multiplication gates and `m`
/// committed wires and recorded the given constraints.
pub open spec fn circuit_of(constraints: Seq<Terms>, n0: nat, m: nat) -> CircuitView {
    circuit_with(constraints, padded_len(n0), m)
}

/// The vector with `addend` added, in the field, to entry `k`.
pub open spec fn entry_added(row: Seq<nat>, k: int, addend: nat) -> Seq<nat> {
    row.update(k, field_add(row[k], addend))
}

/// A term on a wire outside a row leaves the row as it was.
pub proof fn lemma_row_unchanged(terms: Terms, term: (Variable, nat), class: VariableType, len: nat)
    requires
        forall|k: int| 0 <= k < len ==> term.0 != #[trigger] wire(class, k),
    ensures
        row_weights(terms.push(term), class, len) == row_weights(terms, class, len),
{
    assert forall|k: int| 0 <= k < len implies row_weights(terms.push(term), class, len)[k]
        == row_weights(terms, class, len)[k] by {
        lemma_weight_push(terms, term, wire(class, k));
    }
    assert(row_weights(terms.push(term), class, len) =~= row_weights(terms, class, len));
}

/// A term on the `k`-th wire of a row adds its weight to entry `k`, and to
/// no other entry.
pub proof fn lemma_row_updated(
    terms: Terms,
    term: (Variable, nat),
    class: VariableType,
    k: usize,
    len: nat,
)
    requires
        k < len <= usize::MAX,
        term.0 == wire(class, k as int),
    ensures
        row_weights(terms.push(term), class, len) == entry_added(
            row_weights(terms, class, len),
            k as int,
            term_weight_of(term),
        ),
{
    let after = row_weights(terms.push(term), class, len);
    let before = row_weights(terms, class, len);
    let updated = entry_added(before, k as int, term_weight_of(term));
    assert forall|j: int| 0 <= j < len implies after[j] == updated[j] by {
        lemma_weight_push(terms, term, wire(class, j));
    }
    assert(after =~= updated);
}

/// The sign convention, and that entries accumulate. A further term in
/// constraint `i` adds to the entry of its wire in row `i`, and changes
/// nothing else: on a multiplier wire it adds its negated coefficient to
/// its entry of `W_L`, `W_R` or `W_O`; on a committed wire it adds its
/// coefficient to its entry of `W_V`; on the constant wire it adds its
/// coefficient to `c[i]`.
pub proof fn lemma_term_enters_row(
    constraints: Seq<Terms>,
    i: int,
    term: (Variable, nat),
    n: nat,
    m: nat,
)
    requires
        0 <= i < constraints.len(),
        n <= usize::MAX,
        m <= usize::MAX,
        term.0.in_range(n, m),
    ensures
        ({
            let before = circuit_with(constraints, n, m);
            let after = circuit_with(constraints.update(i, constraints[i].push(term)), n, m);
            let negated = crate::scalar::field_neg(term.1);
            match term.0 {
                Variable::MultiplierLeft(k) => after == (CircuitView {
                    w_l: before.w_l.update(i, entry_added(before.w_l[i], k as int, negated)),
                    ..before
                }),
                Variable::MultiplierRight(k) => after == (CircuitView {
                    w_r: before.w_r.update(i, entry_added(before.w_r[i], k as int, negated)),
                    ..before
                }),
                Variable::MultiplierOutput(k) => after == (CircuitView {
                    w_o: before.w_o.update(i, entry_added(before.w_o[i], k as int, negated)),
                    ..before
                }),
                Variable::Committed(k) => after == (CircuitView {
                    w_v: before.w_v.update(i, entry_added(before.w_v[i], k as int, term.1)),
                    ..before
                }),
                Variable::One() => after == (CircuitView {
                    c: entry_added(before.c, i, term.1),
                    ..before
                }),
            }
        }),
{
    let terms = constraints[i];
    let before = circuit_with(constraints, n, m);
    let after = circuit_with(constraints.update(i, terms.push(term)), n, m);
    let negated = crate::scalar::field_neg(term.1);
    lemma_weight_push(terms, term, Variable::One());
    match term.0 {
        Variable::MultiplierLeft(k) => {
            lemma_row_updated(terms, term, VariableType::aL, k, n);
            lemma_row_unchanged(terms, term, VariableType::aR, n);
            lemma_row_unchanged(terms, term, VariableType::aO, n);
            lemma_row_unchanged(terms, term, VariableType::v, m);
            assert(after =~~= (CircuitView {
                w_l: before.w_l.update(i, entry_added(before.w_l[i], k as int, negated)),
                ..before
            }));
        },
        Variable::MultiplierRight(k) => {
            lemma_row_unchanged(terms, term, VariableType::aL, n);
            lemma_row_updated(terms, term, VariableType::aR, k, n);
            lemma_row_unchanged(terms, term, VariableType::aO, n);
            lemma_row_unchanged(terms, term, VariableType::v, m);
            assert(after =~~= (CircuitView {
                w_r: before.w_r.update(i, entry_added(before.w_r[i], k as int, negated)),
                ..before
            }));
        },
        Variable::MultiplierOutput(k) => {
            lemma_row_unchanged(terms, term, VariableType::aL, n);
            lemma_row_unchanged(terms, term, VariableType::aR, n);
            lemma_row_updated(terms, term, VariableType::aO, k, n);
            lemma_row_unchanged(terms, term, VariableType::v, m);
            assert(after =~~= (CircuitView {
                w_o: before.w_o.update(i, entry_added(before.w_o[i], k as int, negated)),
                ..before
            }));
        },
        Variable::Committed(k) => {
            lemma_row_unchanged(terms, term, VariableType::aL, n);
            lemma_row_unchanged(terms, term, VariableType::aR, n);
            lemma_row_unchanged(terms, term, VariableType::aO, n);
            lemma_row_updated(terms, term, VariableType::v, k, m);
            assert(after =~~= (CircuitView {
                w_v: before.w_v.update(i, entry_added(before.w_v[i], k as int, term.1)),
                ..before
            }));
        },
        Variable::One() => {
            lemma_row_unchanged(terms, term, VariableType::aL, n);
            lemma_row_unchanged(terms, term, VariableType::aR, n);
            lemma_row_unchanged(terms, term, VariableType::aO, n);
            lemma_row_unchanged(terms, term, VariableType::v, m);
            assert(after =~~= (CircuitView { c: entry_added(before.c, i, term.1), ..before }));
        },
    }
}

/// Two terms on the same wire in one constraint both enter the entry of
/// that wire: the entry is the sum of what each adds.
pub proof fn lemma_duplicate_terms_accumulate(terms: Terms, var: Variable, alpha: nat, beta: nat)
    ensures
        weight(terms.push((var, alpha)).push((var, beta)), var) == field_add(
            field_add(weight(terms, var), term_weight_of((var, alpha))),
            term_weight_of((var, beta)),
        ),
{
    lemma_weight_push(terms, (var, alpha), var);
    lemma_weight_push(terms.push((var, alpha)), (var, beta), var);
}

/// The sequence followed by zeros up to the length `len`.
pub open spec fn zero_padded(values: Seq<nat>, len: nat) -> Seq<nat> {
    values + Seq::new((len - values.len()) as nat, |i: int| 0nat)
}

/// Padding keeps the values in their order and appends zeros only, up to
/// the length `len`; where the values have that length already, nothing is
/// appended.
pub proof fn lemma_zero_padded(values: Seq<nat>, len: nat)
    requires
        values.len() <= len,
    ensures
        zero_padded(values, len).len() == len,
        forall|k: int| 0 <= k < values.len() ==> #[trigger] zero_padded(values, len)[k] == values[k],
        forall|k: int| values.len() <= k < len ==> #[trigger] zero_padded(values, len)[k] == 0,
        values.len() == len ==> zero_padded(values, len) == values,
{
    if values.len() == len {
        assert(zero_padded(values, len) =~= values);
    }
}

/// What the prover hands to the proof protocol: the assignments of the
/// multiplication gates, padded with zeros, the values of the committed
/// wires and their blinding factors.
#[allow(non_snake_case)]
#[derive(Clone, Debug, PartialEq, Eq)]
pub struct ProverInput {
    /// The left inputs of the multiplication gates.
    pub a_L: Vec<Scalar>,
    /// The right inputs of the multiplication gates.
    pub a_R: Vec<Scalar>,
    /// The outputs of the multiplication gates.
    pub a_O: Vec<Scalar>,
    /// The values of the committed wires.
    pub v: Vec<Scalar>,
    /// The blinding factors of the commitments.
    pub v_blinding: Vec<Scalar>,
}

/// What the verifier hands to the proof protocol: the commitments to the
/// committed wires.
#[allow(non_snake_case)]
#[derive(Clone, Debug, PartialEq, Eq)]
pub struct VerifierInput {
    /// The commitments, one for each committed wire.
    pub V: Vec<CompressedRistretto>,
}

/// The matrix form of a constraint system.
#[allow(non_snake_case)]
#[derive(Clone, Debug, PartialEq, Eq)]
pub struct Circuit {
    /// The number of multiplication gates: 0 or a power of two.
    pub n: usize,
    /// The number of committed wires.
    pub m: usize,
    /// The number of constraints.
    pub q: usize,
    /// The constants of the constraints.
    pub c: Vec<Scalar>,
    /// The weights of the left inputs, `q` rows of `n`.
    pub W_L: Vec<Vec<Scalar>>,
    /// The weights of the right inputs, `q` rows of `n`.
    pub W_R: Vec<Vec<Scalar>>,
    /// The weights of the outputs, `q` rows of `n`.
    pub W_O: Vec<Vec<Scalar>>,
    /// The weights of the committed wires, `q` rows of `m`.
    pub W_V: Vec<Vec<Scalar>>,
}

impl View for Circuit {
    type V = CircuitView;

    open spec fn view(&self) -> CircuitView {
        CircuitView {
            n: self.n as nat,
            m: self.m as nat,
            q: self.q as nat,
            c: scalars_view(self.c@),
            w_l: matrix_view(self.W_L@),
            w_r: matrix_view(self.W_R@),
            w_o: matrix_view(self.W_O@),
            w_v: matrix_view(self.W_V@),
        }
    }
}

impl CircuitView {
    /// Whether the vector and the matrices have the dimensions that `n`,
    /// `m` and `q` give.
    pub open spec fn well_formed(self) -> bool {
        &&& self.c.len() == self.q
        &&& self.w_l.len() == self.q
        &&& self.w_r.len() == self.q
        &&& self.w_o.len() == self.q
        &&& self.w_v.len() == self.q
        &&& forall|i: int| 0 <= i < self.q ==> (#[trigger] self.w_l[i]).len() == self.n
        &&& forall|i: int| 0 <= i < self.q ==> (#[trigger] self.w_r[i]).len() == self.n
        &&& forall|i: int| 0 <= i < self.q ==> (#[trigger] self.w_o[i]).len() == self.n
        &&& forall|i: int| 0 <= i < self.q ==> (#[trigger] self.w_v[i]).len() == self.m
    }
}

/// A vector of `len` zeros.
fn zero_row(len: usize) -> (row: Vec<Scalar>)
    ensures
        row@.len() == len,
        forall|k: int| 0 <= k < len ==> (#[trigger] row@[k])@ == 0,
{
    let zero = Scalar::zero();
    let mut row: Vec<Scalar> = Vec::new();
    let mut k: usize = 0;
    while k < len
        invariant
            k <= len,
            zero@ == 0,
            row@.len() == k,
            forall|j: int| 0 <= j < k ==> (#[trigger] row@[j])@ == 0,
        decreases len - k,
    {
        row.push(zero);
        k += 1;
    }
    row
}

/// Adds `addend` to entry `k` of `row`.
fn add_to_entry(row: &mut Vec<Scalar>, k: usize, addend: Scalar)
    requires
        k < old(row)@.len(),
    ensures
        final(row)@.len() == old(row)@.len(),
        scalars_view(final(row)@) == entry_added(scalars_view(old(row)@), k as int, addend@),
{
    let sum = row[k] + addend;
    row.set(k, sum);
    assert(scalars_view(row@) =~= entry_added(scalars_view(old(row)@), k as int, addend@));
}

/// The rows of one constraint in the four matrices, and its constant.
fn assemble_row(lc: &LinearCombination, n: usize, m: usize) -> (r: (
    Vec<Scalar>,
    Vec<Scalar>,
    Vec<Scalar>,
    Vec<Scalar>,
    Scalar,
))
    requires
        lc.in_range(n as nat, m as nat),
    ensures
        scalars_view(r.0@) == row_weights(lc@, VariableType::aL, n as nat),
        scalars_view(r.1@) == row_weights(lc@, VariableType::aR, n as nat),
        scalars_view(r.2@) == row_weights(lc@, VariableType::aO, n as nat),
        scalars_view(r.3@) == row_weights(lc@, VariableType::v, m as nat),
        r.4@ == weight(lc@, Variable::One()),
{
    let terms = lc.terms();
    let mut row_l = zero_row(n);
    let mut row_r = zero_row(n);
    let mut row_o = zero_row(n);
    let mut row_v = zero_row(m);
    let mut constant = Scalar::zero();
    let mut j: usize = 0;
    assert(lc@.take(0) =~= Seq::<(Variable, nat)>::empty());
    assert(scalars_view(row_l@) =~= row_weights(lc@.take(0), VariableType::aL, n as nat));
    assert(scalars_view(row_r@) =~= row_weights(lc@.take(0), VariableType::aR, n as nat));
    assert(scalars_view(row_o@) =~= row_weights(lc@.take(0), VariableType::aO, n as nat));
    assert(scalars_view(row_v@) =~= row_weights(lc@.take(0), VariableType::v, m as nat));
    while j < terms.len()
        invariant
            j <= terms.len(),
            lc@ == terms_view(terms@),
            lc.in_range(n as nat, m as nat),
            row_l@.len() == n,
            row_r@.len() == n,
            row_o@.len() == n,
            row_v@.len() == m,
            scalars_view(row_l@) == row_weights(lc@.take(j as int), VariableType::aL, n as nat),
            scalars_view(row_r@) == row_weights(lc@.take(j as int), VariableType::aR, n as nat),
            scalars_view(row_o@) == row_weights(lc@.take(j as int), VariableType::aO, n as nat),
            scalars_view(row_v@) == row_weights(lc@.take(j as int), VariableType::v, m as nat),
            constant@ == weight(lc@.take(j as int), Variable::One()),
        decreases terms.len() - j,
    {
        let term = terms[j];
        let ghost done = lc@.take(j as int);
        let ghost t = lc@[j as int];
        proof {
            lc@.lemma_take_succ_push(j as int);
            assert(t.0.in_range(n as nat, m as nat));
            assert(t == (term.0, term.1@));
            lemma_weight_push(done, t, Variable::One());
        }
        match term.0 {
            Variable::MultiplierLeft(k) => {
                proof {
                    lemma_row_updated(done, t, VariableType::aL, k, n as nat);
                    lemma_row_unchanged(done, t, VariableType::aR, n as nat);
                    lemma_row_unchanged(done, t, VariableType::aO, n as nat);
                    lemma_row_unchanged(done, t, VariableType::v, m as nat);
                }
                add_to_entry(&mut row_l, k, core::ops::Neg::neg(term.1));
            },
            Variable::MultiplierRight(k) => {
                proof {
                    lemma_row_unchanged(done, t, VariableType::aL, n as nat);
                    lemma_row_updated(done, t, VariableType::aR, k, n as nat);
                    lemma_row_unchanged(done, t, VariableType::aO, n as nat);
                    lemma_row_unchanged(done, t, VariableType::v, m as nat);
                }
                add_to_entry(&mut row_r, k, core::ops::Neg::neg(term.1));
            },
            Variable::MultiplierOutput(k) => {
                proof {
                    lemma_row_unchanged(done, t, VariableType::aL, n as nat);
                    lemma_row_unchanged(done, t, VariableType::aR, n as nat);
                    lemma_row_updated(done, t, VariableType::aO, k, n as nat);
                    lemma_row_unchanged(done, t, VariableType::v, m as nat);
                }
                add_to_entry(&mut row_o, k, core::ops::Neg::neg(term.1));
            },
            Variable::Committed(k) => {
                proof {
                    lemma_row_unchanged(done, t, VariableType::aL, n as nat);
                    lemma_row_unchanged(done, t, VariableType::aR, n as nat);
                    lemma_row_unchanged(done, t, VariableType::aO, n as nat);
                    lemma_row_updated(done, t, VariableType::v, k, m as nat);
                }
                add_to_entry(&mut row_v, k, term.1);
            },
            Variable::One() => {
                proof {
                    lemma_row_unchanged(done, t, VariableType::aL, n as nat);
                    lemma_row_unchanged(done, t, VariableType::aR, n as nat);
                    lemma_row_unchanged(done, t, VariableType::aO, n as nat);
                    lemma_row_unchanged(done, t, VariableType::v, m as nat);
                }
                constant = constant + term.1;
            },
        }
        j += 1;
    }
    assert(lc@.take(j as int) =~= lc@);
    (row_l, row_r, row_o, row_v, constant)
}

impl Circuit {
    /// Whether the vector and the matrices have the dimensions that `n`,
    /// `m` and `q` give.
    pub open spec fn well_formed(&self) -> bool {
        self@.well_formed()
    }

    /// The circuit of a system that allocated `n0` multiplication gates and
    /// `m` committed wires and recorded `constraints`: the gates are padded
    /// to `padded_len(n0)`, and entry `k` of row `i` of each matrix is the
    /// weight of its wire in constraint `i`. Every constraint must be on
    /// wires of the circuit.
    pub fn assemble(constraints: &Vec<LinearCombination>, n0: usize, m: usize) -> (r: Circuit)
        requires
            padded_len(n0 as nat) <= usize::MAX,
            constraints_in_range(
                constraints_view(constraints@),
                padded_len(n0 as nat),
                m as nat,
            ),
        ensures
            r@ == circuit_of(constraints_view(constraints@), n0 as nat, m as nat),
            r.well_formed(),
    {
        let n = match checked_padded_len(n0) {
            Some(n) => n,
            None => vstd::pervasive::unreached(),
        };
        proof {
            lemma_padded_len(n0 as nat);
        }
        let q = constraints.len();
        let ghost rows = constraints_view(constraints@);
        let mut c: Vec<Scalar> = Vec::new();
        let mut w_l: Vec<Vec<Scalar>> = Vec::new();
        let mut w_r: Vec<Vec<Scalar>> = Vec::new();
        let mut w_o: Vec<Vec<Scalar>> = Vec::new();
        let mut w_v: Vec<Vec<Scalar>> = Vec::new();
        let mut i: usize = 0;
        while i < q
            invariant
                i <= q,
                q == constraints@.len(),
                n0 <= n,
                c@.len() == i,
                w_l@.len() == i,
                w_r@.len() == i,
                w_o@.len() == i,
                w_v@.len() == i,
                rows == constraints_view(constraints@),
                constraints_in_range(rows, n as nat, m as nat),
                scalars_view(c@) =~= Seq::new(i as nat, |r: int| weight(rows[r], Variable::One())),
                matrix_view(w_l@) =~= Seq::new(
                    i as nat,
                    |r: int| row_weights(rows[r], VariableType::aL, n as nat),
                ),
                matrix_view(w_r@) =~= Seq::new(
                    i as nat,
                    |r: int| row_weights(rows[r], VariableType::aR, n as nat),
                ),
                matrix_view(w_o@) =~= Seq::new(
                    i as nat,
                    |r: int| row_weights(rows[r], VariableType::aO, n as nat),
                ),
                matrix_view(w_v@) =~= Seq::new(
                    i as nat,
                    |r: int| row_weights(rows[r], VariableType::v, m as nat),
                ),
            decreases q - i,
        {
            let lc = &constraints[i];
            assert(lc@ == rows[i as int]);
            assert(crate::linear_combination::terms_in_range(rows[i as int], n as nat, m as nat));
            let (row_l, row_r, row_o, row_v, constant) = assemble_row(lc, n, m);
            let ghost before = (c@, w_l@, w_r@, w_o@, w_v@);
            c.push(constant);
            w_l.push(row_l);
            w_r.push(row_r);
            w_o.push(row_o);
            w_v.push(row_v);
            proof {
                assert(scalars_view(c@) =~= scalars_view(before.0).push(constant@));
                assert(matrix_view(w_l@) =~= matrix_view(before.1).push(scalars_view(row_l@)));
                assert(matrix_view(w_r@) =~= matrix_view(before.2).push(scalars_view(row_r@)));
                assert(matrix_view(w_o@) =~= matrix_view(before.3).push(scalars_view(row_o@)));
                assert(matrix_view(w_v@) =~= matrix_view(before.4).push(scalars_view(row_v@)));
            }
            i += 1;
        }
        let r = Circuit { n, m, q, c, W_L: w_l, W_R: w_r, W_O: w_o, W_V: w_v };
        assert(r@ =~~= circuit_of(rows, n0 as nat, m as nat));
        r
    }
}

} // verus!
