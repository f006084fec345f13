//! What a circuit says of the wires.
//!
//! The proof protocol shows of the prover's input that the output of every
//! multiplication gate is the product of its inputs, and that every row of
//! the circuit holds:
//! `<W_L[i], a_L> + <W_R[i], a_R> + <W_O[i], a_O> = <W_V[i], v> + c[i]`.
//! This file proves that a row holds exactly if the constraint that it was
//! assembled from has the value zero, so that the padded input satisfies
//! the circuit exactly if the wires satisfy the constraint system.

use crate::circuit::circuit_of;
use crate::circuit::circuit_with;
use crate::circuit::CircuitView;
use crate::circuit::constraints_in_range;
use crate::circuit::lemma_padded_len;
use crate::circuit::lemma_row_unchanged;
use crate::circuit::lemma_row_updated;
use crate::circuit::padded_len;
use crate::circuit::row_weights;
use crate::circuit::zero_padded;
use crate::circuit_proof::gates_consistent;
use crate::circuit_proof::satisfied;
use crate::linear_combination::lemma_weight_push;
use crate::linear_combination::Terms;
use crate::linear_combination::terms_in_range;
use crate::linear_combination::value;
use crate::linear_combination::weight;
use crate::linear_combination::wire_value;
use crate::linear_combination::Wires;
use crate::scalar::field_add;
use crate::scalar::field_mul;
use crate::scalar::field_neg;
use crate::scalar::group_order;
use crate::scalar::lemma_field_distributes;
use crate::scalar::lemma_field_neg_cancels;
use crate::variable::Variable;
use crate::variable::VariableType;
use vstd::arithmetic::div_mod::lemma_add_mod_noop;
use vstd::arithmetic::div_mod::lemma_small_mod;
use vstd::prelude::*;

verus! {

/// The inner product, in the field, of the first `len` entries of two
/// vectors.
pub open spec fn inner_product_upto(a: Seq<nat>, b: Seq<nat>, len: nat) -> nat
    decreases len,
{
    if len == 0 {
        0
    } else {
        field_add(
            inner_product_upto(a, b, (len - 1) as nat),
            field_mul(a[len - 1], b[len - 1]),
        )
    }
}

/// The inner product, in the field, of two vectors of the same length.
pub open spec fn inner_product(a: Seq<nat>, b: Seq<nat>) -> nat {
    inner_product_upto(a, b, a.len())
}

/// The side of the gates in row `i`:
/// `<W_L[i], a_L> + <W_R[i], a_R> + <W_O[i], a_O>`.
pub open spec fn gates_side(circuit: CircuitView, i: int, wires: Wires) -> nat {
    field_add(
        field_add(
            inner_product(circuit.w_l[i], wires.a_l),
            inner_product(circuit.w_r[i], wires.a_r),
        ),
        inner_product(circuit.w_o[i], wires.a_o),
    )
}

/// The side of the committed wires in row `i`: `<W_V[i], v> + c[i]`.
pub open spec fn committed_side(circuit: CircuitView, i: int, wires: Wires) -> nat {
    field_add(inner_product(circuit.w_v[i], wires.v), circuit.c[i])
}

/// Whether row `i` of the circuit holds of the wires.
pub open spec fn row_holds(circuit: CircuitView, i: int, wires: Wires) -> bool {
    gates_side(circuit, i, wires) == committed_side(circuit, i, wires)
}

/// Whether every row of the circuit holds of the wires.
pub open spec fn circuit_holds(circuit: CircuitView, wires: Wires) -> bool {
    forall|i: int| 0 <= i < circuit.q ==> #[trigger] row_holds(circuit, i, wires)
}

/// The wires with the gates padded with zeros to `n` gates.
pub open spec fn padded_wires(wires: Wires, n: nat) -> Wires {
    Wires {
        a_l: zero_padded(wires.a_l, n),
        a_r: zero_padded(wires.a_r, n),
        a_o: zero_padded(wires.a_o, n),
        v: wires.v,
    }
}

/// A sum of a reduced sum and a further summand is the reduced sum of all.
proof fn lemma_mod_add_inner(a: int, b: int, c: int, m: int)
    requires
        0 < m,
    ensures
        ((a + b) % m + c) % m == (a + b + c) % m,
        (a + (b + c) % m) % m == (a + b + c) % m,
{
    lemma_add_mod_noop(a + b, c, m);
    lemma_add_mod_noop((a + b) % m, c, m);
    lemma_add_mod_noop(a, b + c, m);
    lemma_add_mod_noop(a, (b + c) % m, m);
    vstd::arithmetic::div_mod::lemma_mod_twice(a + b, m);
    vstd::arithmetic::div_mod::lemma_mod_twice(b + c, m);
}

/// An inner product is a reduced field element.
proof fn lemma_inner_product_reduced(a: Seq<nat>, b: Seq<nat>, len: nat)
    ensures
        inner_product_upto(a, b, len) < group_order(),
{
}

/// The inner product of a vector of zeros with any vector is zero.
proof fn lemma_inner_product_of_zeros(a: Seq<nat>, b: Seq<nat>, len: nat)
    requires
        len <= a.len(),
        forall|k: int| 0 <= k < a.len() ==> a[k] == 0,
    ensures
        inner_product_upto(a, b, len) == 0,
    decreases len,
{
    if len > 0 {
        lemma_inner_product_of_zeros(a, b, (len - 1) as nat);
        assert(a[len - 1] == 0);
        assert(0 * b[len - 1] == 0);
    }
}

/// Where `d` is added to entry `k` of the first vector, `d * b[k]` is added
/// to the inner product, if it reaches that entry.
proof fn lemma_inner_product_update(a: Seq<nat>, b: Seq<nat>, k: int, d: nat, len: nat)
    requires
        0 <= k < a.len(),
        len <= a.len(),
    ensures
        inner_product_upto(a.update(k, field_add(a[k], d)), b, len) == if k < len {
            field_add(inner_product_upto(a, b, len), field_mul(d, b[k]))
        } else {
            inner_product_upto(a, b, len)
        },
    decreases len,
{
    let m = group_order() as int;
    let changed = a.update(k, field_add(a[k], d));
    if len > 0 {
        let j = len - 1;
        lemma_inner_product_update(a, b, k, d, j as nat);
        let before = inner_product_upto(a, b, j as nat) as int;
        if j == k {
            lemma_field_distributes(a[k], d, b[k]);
            let t = field_mul(a[k], b[k]) as int;
            let u = field_mul(d, b[k]) as int;
            lemma_mod_add_inner(before, t, u, m);
        } else if j > k {
            let t = field_mul(a[j], b[j]) as int;
            let u = field_mul(d, b[k]) as int;
            lemma_mod_add_inner(before, u, t, m);
            lemma_mod_add_inner(before, t, u, m);
        }
    }
}

/// What the terms give to the inner product of a row with its wires: the
/// entries of the row are the weights of the wires of one class.
spec fn row_product(terms: Terms, class: VariableType, wires: Seq<nat>) -> nat {
    inner_product(row_weights(terms, class, wires.len()), wires)
}

/// What a further term adds to the inner product of a row with its wires.
spec fn row_addend(term: (Variable, nat), class: VariableType, wires: Seq<nat>) -> nat {
    match term.0 {
        Variable::One() => 0,
        Variable::Committed(k) => if class == VariableType::v {
            field_mul(term.1, wires[k as int])
        } else {
            0
        },
        Variable::MultiplierLeft(k) => if class == VariableType::aL {
            field_mul(field_neg(term.1), wires[k as int])
        } else {
            0
        },
        Variable::MultiplierRight(k) => if class == VariableType::aR {
            field_mul(field_neg(term.1), wires[k as int])
        } else {
            0
        },
        Variable::MultiplierOutput(k) => if class == VariableType::aO {
            field_mul(field_neg(term.1), wires[k as int])
        } else {
            0
        },
    }
}

/// A further term adds its addend to the inner product of a row with its
/// wires.
proof fn lemma_row_product_push(
    terms: Terms,
    term: (Variable, nat),
    class: VariableType,
    wires: Seq<nat>,
)
    requires
        wires.len() <= usize::MAX,
        term.0 == crate::circuit::wire(class, term.0.index()) ==> term.0.index() < wires.len(),
    ensures
        row_product(terms.push(term), class, wires) == field_add(
            row_product(terms, class, wires),
            row_addend(term, class, wires),
        ),
{
    let len = wires.len();
    let row = row_weights(terms, class, len);
    lemma_inner_product_reduced(row, wires, len);
    lemma_small_mod(inner_product(row, wires), group_order());
    if term.0 == crate::circuit::wire(class, term.0.index()) {
        let k = term.0.index() as usize;
        lemma_row_updated(terms, term, class, k, len);
        lemma_inner_product_update(row, wires, k as int, crate::linear_combination::term_weight_of(term), len);
    } else {
        assert forall|j: int| 0 <= j < len implies term.0 != #[trigger] crate::circuit::wire(
            class,
            j,
        ) by {
            if term.0 == crate::circuit::wire(class, j) {
                assert(term.0.index() == j);
            }
        }
        lemma_row_unchanged(terms, term, class, len);
    }
}

/// The value of a constraint with the side of the gates of its row, and
/// the side of the committed wires, as integers that are not reduced.
spec fn sides(terms: Terms, wires: Wires) -> (int, int) {
    (
        (value(terms, wires) + row_product(terms, VariableType::aL, wires.a_l) + row_product(
            terms,
            VariableType::aR,
            wires.a_r,
        ) + row_product(terms, VariableType::aO, wires.a_o)) as int,
        (row_product(terms, VariableType::v, wires.v) + weight(terms, Variable::One())) as int,
    )
}

/// Where four reduced summands each take a further addend, and the
/// addends of the left side are congruent to those of the right side, two
/// congruent sums stay congruent.
proof fn lemma_sides_step(
    left: (int, int, int, int),
    right: (int, int),
    added_left: (int, int, int, int),
    added_right: (int, int),
    m: int,
)
    requires
        0 < m,
        (left.0 + left.1 + left.2 + left.3) % m == (right.0 + right.1) % m,
        (added_left.0 + added_left.1 + added_left.2 + added_left.3) % m == (added_right.0
            + added_right.1) % m,
    ensures
        ((left.0 + added_left.0) % m + (left.1 + added_left.1) % m + (left.2 + added_left.2) % m
            + (left.3 + added_left.3) % m) % m == ((right.0 + added_right.0) % m + (right.1
            + added_right.1) % m) % m,
{
    let a = left.0 + added_left.0;
    let b = left.1 + added_left.1;
    let c = left.2 + added_left.2;
    let d = left.3 + added_left.3;
    let e = right.0 + added_right.0;
    let f = right.1 + added_right.1;
    assert((a % m + b % m + c % m + d % m) % m == (a + b + c + d) % m) by {
        lemma_add_mod_noop(a, b, m);
        lemma_add_mod_noop(a + b, c, m);
        lemma_add_mod_noop(a + b + c, d, m);
        lemma_add_mod_noop(a % m + b % m, c % m, m);
        lemma_add_mod_noop(a % m + b % m + c % m, d % m, m);
        vstd::arithmetic::div_mod::lemma_mod_twice(c, m);
        vstd::arithmetic::div_mod::lemma_mod_twice(d, m);
    }
    assert((e % m + f % m) % m == (e + f) % m) by {
        lemma_add_mod_noop(e, f, m);
    }
    let s = left.0 + left.1 + left.2 + left.3;
    let t = added_left.0 + added_left.1 + added_left.2 + added_left.3;
    let u = right.0 + right.1;
    let w = added_right.0 + added_right.1;
    assert(a + b + c + d == s + t);
    assert(e + f == u + w);
    lemma_add_mod_noop(s, t, m);
    lemma_add_mod_noop(u, w, m);
}

/// The value of a constraint and the side of the gates in its row add up
/// to the side of the committed wires, in the field.
proof fn lemma_sides_congruent(terms: Terms, wires: Wires)
    requires
        terms_in_range(terms, wires.a_l.len(), wires.v.len()),
        wires.a_l.len() <= usize::MAX,
        wires.v.len() <= usize::MAX,
        wires.a_r.len() == wires.a_l.len(),
        wires.a_o.len() == wires.a_l.len(),
    ensures
        sides(terms, wires).0 % (group_order() as int) == sides(terms, wires).1 % (
        group_order() as int),
    decreases terms.len(),
{
    let order = group_order() as int;
    let n = wires.a_l.len();
    let m = wires.v.len();
    if terms.len() == 0 {
        lemma_inner_product_of_zeros(row_weights(terms, VariableType::aL, n), wires.a_l, n);
        lemma_inner_product_of_zeros(row_weights(terms, VariableType::aR, n), wires.a_r, n);
        lemma_inner_product_of_zeros(row_weights(terms, VariableType::aO, n), wires.a_o, n);
        lemma_inner_product_of_zeros(row_weights(terms, VariableType::v, m), wires.v, m);
    } else {
        let done = terms.drop_last();
        let t = terms.last();
        assert(terms =~= done.push(t));
        assert(terms_in_range(done, n, m)) by {
            assert forall|j: int| 0 <= j < done.len() implies (#[trigger] done[j]).0.in_range(
                n,
                m,
            ) by {
                assert(done[j] == terms[j]);
            }
        }
        assert(t.0.in_range(n, m)) by {
            assert(terms[terms.len() - 1] == t);
        }
        lemma_sides_congruent(done, wires);
        lemma_weight_push(done, t, Variable::One());
        lemma_row_product_push(done, t, VariableType::aL, wires.a_l);
        lemma_row_product_push(done, t, VariableType::aR, wires.a_r);
        lemma_row_product_push(done, t, VariableType::aO, wires.a_o);
        lemma_row_product_push(done, t, VariableType::v, wires.v);
        let p = field_mul(t.1, wire_value(t.0, wires));
        let al = row_addend(t, VariableType::aL, wires.a_l);
        let ar = row_addend(t, VariableType::aR, wires.a_r);
        let ao = row_addend(t, VariableType::aO, wires.a_o);
        let av = row_addend(t, VariableType::v, wires.v);
        let ac = crate::linear_combination::term_weight(t, Variable::One());
        assert((p + al + ar + ao) % (order as nat) == (av + ac) % (order as nat)) by {
            lemma_addends_congruent(t, wires);
        }
        lemma_sides_step(
            (
                value(done, wires) as int,
                row_product(done, VariableType::aL, wires.a_l) as int,
                row_product(done, VariableType::aR, wires.a_r) as int,
                row_product(done, VariableType::aO, wires.a_o) as int,
            ),
            (
                row_product(done, VariableType::v, wires.v) as int,
                weight(done, Variable::One()) as int,
            ),
            (p as int, al as int, ar as int, ao as int),
            (av as int, ac as int),
            order,
        );
    }
}

/// What one term adds to the value of its constraint and to the side of
/// the gates is congruent to what it adds to the side of the committed
/// wires.
proof fn lemma_addends_congruent(t: (Variable, nat), wires: Wires)
    ensures
        (field_mul(t.1, wire_value(t.0, wires)) + row_addend(t, VariableType::aL, wires.a_l)
            + row_addend(t, VariableType::aR, wires.a_r) + row_addend(
            t,
            VariableType::aO,
            wires.a_o,
        )) % group_order() == (row_addend(t, VariableType::v, wires.v)
            + crate::linear_combination::term_weight(t, Variable::One())) % group_order(),
{
    let x = wire_value(t.0, wires);
    lemma_field_neg_cancels(t.1, x);
    lemma_small_mod(0, group_order());
    match t.0 {
        Variable::One() => {
            assert(t.1 * 1 == t.1);
            vstd::arithmetic::div_mod::lemma_mod_twice(t.1 as int, group_order() as int);
        },
        _ => {},
    }
}

/// The row of a constraint holds of the wires exactly if the constraint has
/// the value zero. The wires are those of the circuit: `n` gates and `m`
/// committed wires.
pub proof fn lemma_row_encodes_constraint(constraints: Seq<Terms>, i: int, n: nat, m: nat, wires: Wires)
    requires
        0 <= i < constraints.len(),
        terms_in_range(constraints[i], n, m),
        n <= usize::MAX,
        m <= usize::MAX,
        wires.a_l.len() == n,
        wires.a_r.len() == n,
        wires.a_o.len() == n,
        wires.v.len() == m,
    ensures
        row_holds(circuit_with(constraints, n, m), i, wires) <==> value(constraints[i], wires) == 0,
{
    let order = group_order() as int;
    let terms = constraints[i];
    let circuit = circuit_with(constraints, n, m);
    lemma_sides_congruent(terms, wires);
    let il = inner_product(row_weights(terms, VariableType::aL, n), wires.a_l) as int;
    let ir = inner_product(row_weights(terms, VariableType::aR, n), wires.a_r) as int;
    let io = inner_product(row_weights(terms, VariableType::aO, n), wires.a_o) as int;
    let iv = inner_product(row_weights(terms, VariableType::v, m), wires.v) as int;
    let c = weight(terms, Variable::One()) as int;
    let val = value(terms, wires) as int;
    let gates = gates_side(circuit, i, wires) as int;
    let committed = committed_side(circuit, i, wires) as int;
    assert(gates == (il + ir + io) % order) by {
        lemma_mod_add_inner(il, ir, io, order);
    }
    assert(committed == (iv + c) % order);
    // (val + gates) % order == committed
    lemma_add_mod_noop(val, il + ir + io, order);
    crate::linear_combination::lemma_value_reduced(terms, wires);
    lemma_small_mod(val as nat, order as nat);
    lemma_small_mod(gates as nat, order as nat);
    assert((val + gates) % order == committed);
    if val == 0 {
        assert(gates == committed);
    }
    if gates == committed {
        // val + gates is below twice the order, and congruent to gates.
        if val + gates >= order {
            vstd::arithmetic::div_mod::lemma_mod_add_multiples_vanish(val + gates - order, order);
            lemma_small_mod((val + gates - order) as nat, order as nat);
        } else {
            lemma_small_mod((val + gates) as nat, order as nat);
        }
        assert(val == 0);
    }
}

/// The circuit holds of the wires exactly if every constraint has the value
/// zero.
pub proof fn lemma_circuit_encodes_constraints(constraints: Seq<Terms>, n: nat, m: nat, wires: Wires)
    requires
        constraints_in_range(constraints, n, m),
        n <= usize::MAX,
        m <= usize::MAX,
        wires.a_l.len() == n,
        wires.a_r.len() == n,
        wires.a_o.len() == n,
        wires.v.len() == m,
    ensures
        circuit_holds(circuit_with(constraints, n, m), wires) <==> forall|i: int|
            0 <= i < constraints.len() ==> value(#[trigger] constraints[i], wires) == 0,
{
    let circuit = circuit_with(constraints, n, m);
    assert forall|i: int| 0 <= i < constraints.len() implies (row_holds(circuit, i, wires)
        <==> value(#[trigger] constraints[i], wires) == 0) by {
        lemma_row_encodes_constraint(constraints, i, n, m, wires);
    }
    if circuit_holds(circuit, wires) {
        assert forall|i: int| 0 <= i < constraints.len() implies value(
            #[trigger] constraints[i],
            wires,
        ) == 0 by {
            assert(row_holds(circuit, i, wires));
        }
    }
}

/// Padding the gates with zeros changes the value of no constraint on the
/// wires that were there.
pub proof fn lemma_value_ignores_padding(terms: Terms, wires: Wires, n: nat)
    requires
        terms_in_range(terms, wires.a_l.len(), wires.v.len()),
        wires.a_r.len() == wires.a_l.len(),
        wires.a_o.len() == wires.a_l.len(),
        wires.a_l.len() <= n,
    ensures
        value(terms, padded_wires(wires, n)) == value(terms, wires),
    decreases terms.len(),
{
    if terms.len() > 0 {
        let done = terms.drop_last();
        assert forall|j: int| 0 <= j < done.len() implies (#[trigger] done[j]).0.in_range(
            wires.a_l.len(),
            wires.v.len(),
        ) by {
            assert(done[j] == terms[j]);
        }
        lemma_value_ignores_padding(done, wires, n);
        assert(terms[terms.len() - 1].0.in_range(wires.a_l.len(), wires.v.len()));
    }
}

/// The wires satisfy a constraint system exactly if, padded with gates of
/// zeros, they satisfy its circuit: the output of every gate is the product
/// of its inputs, and every row holds.
pub proof fn lemma_satisfaction_is_the_circuit_relation(
    constraints: Seq<Terms>,
    wires: Wires,
)
    requires
        wires.a_r.len() == wires.a_l.len(),
        wires.a_o.len() == wires.a_l.len(),
        constraints_in_range(constraints, wires.a_l.len(), wires.v.len()),
        padded_len(wires.a_l.len()) <= usize::MAX,
        wires.v.len() <= usize::MAX,
    ensures
        ({
            let n = padded_len(wires.a_l.len());
            let padded = padded_wires(wires, n);
            satisfied(wires, constraints) <==> gates_consistent(padded.a_l, padded.a_r, padded.a_o)
                && circuit_holds(circuit_of(constraints, wires.a_l.len(), wires.v.len()), padded)
        }),
{
    let n0 = wires.a_l.len();
    let m = wires.v.len();
    let n = padded_len(n0);
    let padded = padded_wires(wires, n);
    lemma_padded_len(n0);
    assert(constraints_in_range(constraints, n, m)) by {
        assert forall|i: int| 0 <= i < constraints.len() implies terms_in_range(
            #[trigger] constraints[i],
            n,
            m,
        ) by {
            assert(terms_in_range(constraints[i], n0, m));
        }
    }
    lemma_circuit_encodes_constraints(constraints, n, m, padded);
    assert forall|i: int| 0 <= i < constraints.len() implies value(
        #[trigger] constraints[i],
        padded,
    ) == value(constraints[i], wires) by {
        assert(terms_in_range(constraints[i], n0, m));
        lemma_value_ignores_padding(constraints[i], wires, n);
    }
    assert(gates_consistent(padded.a_l, padded.a_r, padded.a_o) <==> gates_consistent(
        wires.a_l,
        wires.a_r,
        wires.a_o,
    )) by {
        assert(0 * 0 == 0);
        lemma_small_mod(0, group_order());
        if gates_consistent(wires.a_l, wires.a_r, wires.a_o) {
            assert forall|k: int| 0 <= k < n implies #[trigger] padded.a_o[k] == field_mul(
                padded.a_l[k],
                padded.a_r[k],
            ) by {
                if k < n0 {
                    assert(wires.a_o[k] == field_mul(wires.a_l[k], wires.a_r[k]));
                }
            }
        }
        if gates_consistent(padded.a_l, padded.a_r, padded.a_o) {
            assert forall|k: int| 0 <= k < n0 implies #[trigger] wires.a_o[k] == field_mul(
                wires.a_l[k],
                wires.a_r[k],
            ) by {
                assert(padded.a_o[k] == field_mul(padded.a_l[k], padded.a_r[k]));
            }
        }
    }
}

} // verus!
