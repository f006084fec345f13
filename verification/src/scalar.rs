//! The scalar field of the Ristretto group.
//!
//! A [`Scalar`] holds a 32-byte little-endian encoding of an integer; its
//! view is that integer modulo the group order. The field arithmetic itself
//! is done by `curve25519_dalek`: the functions at the end of this file are
//! the only places where its results are taken on trust.

use curve25519_dalek::scalar::Scalar as DalekScalar;
use subtle::ConstantTimeEq;
use vstd::arithmetic::div_mod::lemma_add_mod_noop;
use vstd::arithmetic::div_mod::lemma_mod_self_0;
use vstd::arithmetic::div_mod::lemma_mul_mod_noop_left;
use vstd::arithmetic::div_mod::lemma_small_mod;
use vstd::arithmetic::mul::lemma_mul_is_distributive_add_other_way;
use vstd::prelude::*;
use vstd::std_specs::cmp::PartialEqSpecImpl;
use vstd::std_specs::ops::AddSpecImpl;
use vstd::std_specs::ops::MulSpecImpl;
use vstd::std_specs::ops::NegSpecImpl;
use vstd::std_specs::ops::SubSpecImpl;

verus! {

/// The order of the Ristretto group, `2^252 + 27742317777372353535851937790883648493`.
pub open spec fn group_order() -> nat {
    0x1000000000000000000000000000000014def9dea2f79cd65812631a5cf5d3ednat
}

/// The integer that a sequence of bytes encodes in little-endian order.
pub open spec fn le_value(bytes: Seq<u8>) -> nat
    decreases bytes.len(),
{
    if bytes.len() == 0 {
        0
    } else {
        bytes[0] as nat + 256 * le_value(bytes.drop_first())
    }
}

/// The sum of two field elements.
pub open spec fn field_add(a: nat, b: nat) -> nat {
    (a + b) % group_order()
}

/// The additive inverse of a field element.
pub open spec fn field_neg(a: nat) -> nat {
    ((group_order() - a % group_order()) % (group_order() as int)) as nat
}

/// The difference of two field elements.
pub open spec fn field_sub(a: nat, b: nat) -> nat {
    field_add(a, field_neg(b))
}

/// The product of two field elements.
pub open spec fn field_mul(a: nat, b: nat) -> nat {
    (a * b) % group_order()
}

/// Multiplication distributes over addition, in the field.
pub proof fn lemma_field_distributes(a: nat, b: nat, x: nat)
    ensures
        field_mul(field_add(a, b), x) == field_add(field_mul(a, x), field_mul(b, x)),
{
    let m = group_order() as int;
    lemma_mul_mod_noop_left((a + b) as int, x as int, m);
    lemma_mul_is_distributive_add_other_way(x as int, a as int, b as int);
    lemma_add_mod_noop((a * x) as int, (b * x) as int, m);
}

/// A number and its negation add up to zero, in the field.
pub proof fn lemma_field_neg(a: nat)
    ensures
        field_add(a, field_neg(a)) == 0,
        field_neg(a) < group_order(),
{
    let m = group_order() as int;
    let r = (a % group_order()) as int;
    lemma_add_mod_noop(a as int, field_neg(a) as int, m);
    if r == 0 {
        lemma_mod_self_0(m);
    } else {
        lemma_small_mod((m - r) as nat, m as nat);
        lemma_mod_self_0(m);
    }
    lemma_small_mod(field_neg(a), group_order());
}

/// The products of a number and of its negation with the same factor add
/// up to zero, in the field.
pub proof fn lemma_field_neg_cancels(a: nat, x: nat)
    ensures
        field_add(field_mul(a, x), field_mul(field_neg(a), x)) == 0,
{
    lemma_field_distributes(a, field_neg(a), x);
    lemma_field_neg(a);
    assert(field_mul(0, x) == 0) by {
        assert(0 * x == 0);
        lemma_small_mod(0, group_order());
    }
}

/// An element of the scalar field.
#[derive(Clone, Copy, Debug)]
pub struct Scalar {
    bytes: [u8; 32],
}

impl View for Scalar {
    type V = nat;

    closed spec fn view(&self) -> nat {
        le_value(self.bytes@) % group_order()
    }
}

impl Scalar {
    /// The view of a scalar is a reduced representative.
    pub proof fn lemma_reduced(self)
        ensures
            self@ < group_order(),
    {
    }

    /// The scalar that represents `x`.
    pub fn from_u64(x: u64) -> (r: Scalar)
        ensures
            r@ == x as nat,
    {
        dalek_from_u64(x)
    }

    /// The additive identity.
    pub fn zero() -> (r: Scalar)
        ensures
            r@ == 0,
    {
        dalek_from_u64(0)
    }

    /// The multiplicative identity.
    pub fn one() -> (r: Scalar)
        ensures
            r@ == 1,
    {
        dalek_from_u64(1)
    }

    /// The scalar that a 256-bit little-endian integer reduces to.
    pub fn from_bytes_mod_order(bytes: [u8; 32]) -> (r: Scalar)
        ensures
            r@ == le_value(bytes@) % group_order(),
    {
        dalek_from_bytes_mod_order(bytes)
    }

    /// The scalar that a 512-bit little-endian integer reduces to.
    pub fn from_bytes_mod_order_wide(bytes: &[u8; 64]) -> (r: Scalar)
        ensures
            r@ == le_value(bytes@) % group_order(),
    {
        dalek_from_bytes_mod_order_wide(bytes)
    }

    /// The canonical little-endian encoding of the scalar.
    pub fn to_bytes(&self) -> (bytes: [u8; 32])
        ensures
            le_value(bytes@) == self@,
    {
        dalek_to_bytes(self)
    }
}

impl Default for Scalar {
    /// The additive identity.
    fn default() -> (r: Scalar)
        ensures
            r@ == 0,
    {
        dalek_from_u64(0)
    }
}

impl PartialEq for Scalar {
    fn eq(&self, other: &Scalar) -> (r: bool) {
        dalek_ct_eq(self, other)
    }
}

impl Eq for Scalar {

}

impl PartialEqSpecImpl for Scalar {
    open spec fn obeys_eq_spec() -> bool {
        true
    }

    open spec fn eq_spec(&self, other: &Scalar) -> bool {
        self@ == other@
    }
}

impl core::ops::Add for Scalar {
    type Output = Scalar;

    fn add(self, rhs: Scalar) -> (r: Scalar)
        ensures
            r@ == field_add(self@, rhs@),
    {
        dalek_add(&self, &rhs)
    }
}

impl core::ops::Sub for Scalar {
    type Output = Scalar;

    fn sub(self, rhs: Scalar) -> (r: Scalar)
        ensures
            r@ == field_sub(self@, rhs@),
    {
        dalek_sub(&self, &rhs)
    }
}

impl core::ops::Mul for Scalar {
    type Output = Scalar;

    fn mul(self, rhs: Scalar) -> (r: Scalar)
        ensures
            r@ == field_mul(self@, rhs@),
    {
        dalek_mul(&self, &rhs)
    }
}

impl core::ops::Neg for Scalar {
    type Output = Scalar;

    fn neg(self) -> (r: Scalar)
        ensures
            r@ == field_neg(self@),
    {
        dalek_neg(&self)
    }
}

// The operators are specified by the `ensures` of their methods, over the
// views of the operands. The bytes of a result are whatever encoding the
// arithmetic hands back, so no spec-level result is claimed for them.
impl AddSpecImpl for Scalar {
    open spec fn obeys_add_spec() -> bool {
        false
    }

    open spec fn add_req(self, rhs: Scalar) -> bool {
        true
    }

    open spec fn add_spec(self, rhs: Scalar) -> Scalar {
        self
    }
}

impl SubSpecImpl for Scalar {
    open spec fn obeys_sub_spec() -> bool {
        false
    }

    open spec fn sub_req(self, rhs: Scalar) -> bool {
        true
    }

    open spec fn sub_spec(self, rhs: Scalar) -> Scalar {
        self
    }
}

impl MulSpecImpl for Scalar {
    open spec fn obeys_mul_spec() -> bool {
        false
    }

    open spec fn mul_req(self, rhs: Scalar) -> bool {
        true
    }

    open spec fn mul_spec(self, rhs: Scalar) -> Scalar {
        self
    }
}

impl NegSpecImpl for Scalar {
    open spec fn obeys_neg_spec() -> bool {
        false
    }

    open spec fn neg_req(self) -> bool {
        true
    }

    open spec fn neg_spec(self) -> Scalar {
        self
    }
}

/// `Scalar::from(u64)` of `curve25519_dalek`: the scalar whose integer is `x`.
#[verifier::external_body]
fn dalek_from_u64(x: u64) -> (r: Scalar)
    ensures
        r@ == x as nat,
{
    Scalar { bytes: DalekScalar::from(x).to_bytes() }
}

/// `Scalar::from_bytes_mod_order` of `curve25519_dalek`: the 256-bit
/// little-endian integer, reduced modulo the group order.
#[verifier::external_body]
fn dalek_from_bytes_mod_order(bytes: [u8; 32]) -> (r: Scalar)
    ensures
        r@ == le_value(bytes@) % group_order(),
{
    Scalar { bytes: DalekScalar::from_bytes_mod_order(bytes).to_bytes() }
}

/// `Scalar::from_bytes_mod_order_wide` of `curve25519_dalek`: the 512-bit
/// little-endian integer, reduced modulo the group order.
#[verifier::external_body]
fn dalek_from_bytes_mod_order_wide(bytes: &[u8; 64]) -> (r: Scalar)
    ensures
        r@ == le_value(bytes@) % group_order(),
{
    Scalar { bytes: DalekScalar::from_bytes_mod_order_wide(bytes).to_bytes() }
}

/// `Scalar::to_bytes` of `curve25519_dalek`, on the reduced scalar: the
/// little-endian encoding of the representative below the group order.
#[verifier::external_body]
fn dalek_to_bytes(a: &Scalar) -> (bytes: [u8; 32])
    ensures
        le_value(bytes@) == a@,
{
    DalekScalar::from_bytes_mod_order(a.bytes).to_bytes()
}

/// Addition of `curve25519_dalek`'s `Scalar`: the sum modulo the group order.
#[verifier::external_body]
fn dalek_add(a: &Scalar, b: &Scalar) -> (r: Scalar)
    ensures
        r@ == field_add(a@, b@),
{
    let x = DalekScalar::from_bytes_mod_order(a.bytes);
    let y = DalekScalar::from_bytes_mod_order(b.bytes);
    Scalar { bytes: (x + y).to_bytes() }
}

/// Subtraction of `curve25519_dalek`'s `Scalar`: the difference modulo the
/// group order.
#[verifier::external_body]
fn dalek_sub(a: &Scalar, b: &Scalar) -> (r: Scalar)
    ensures
        r@ == field_sub(a@, b@),
{
    let x = DalekScalar::from_bytes_mod_order(a.bytes);
    let y = DalekScalar::from_bytes_mod_order(b.bytes);
    Scalar { bytes: (x - y).to_bytes() }
}

/// Multiplication of `curve25519_dalek`'s `Scalar`: the product modulo the
/// group order.
#[verifier::external_body]
fn dalek_mul(a: &Scalar, b: &Scalar) -> (r: Scalar)
    ensures
        r@ == field_mul(a@, b@),
{
    let x = DalekScalar::from_bytes_mod_order(a.bytes);
    let y = DalekScalar::from_bytes_mod_order(b.bytes);
    Scalar { bytes: (x * y).to_bytes() }
}

/// Negation of `curve25519_dalek`'s `Scalar`: the additive inverse modulo
/// the group order.
#[verifier::external_body]
fn dalek_neg(a: &Scalar) -> (r: Scalar)
    ensures
        r@ == field_neg(a@),
{
    let x = DalekScalar::from_bytes_mod_order(a.bytes);
    Scalar { bytes: (-x).to_bytes() }
}

/// `ConstantTimeEq::ct_eq` on `curve25519_dalek`'s `Scalar`: whether the two
/// scalars are the same field element.
#[verifier::external_body]
fn dalek_ct_eq(a: &Scalar, b: &Scalar) -> (r: bool)
    ensures
        r == (a@ == b@),
{
    let x = DalekScalar::from_bytes_mod_order(a.bytes);
    let y = DalekScalar::from_bytes_mod_order(b.bytes);
    bool::from(x.ct_eq(&y))
}

} // verus!
