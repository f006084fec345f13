//! Pedersen commitments over the Ristretto group.
//!
//! Group elements are held by their 32-byte encodings. The group arithmetic
//! is done by `curve25519_dalek`: the functions at the end of this file are
//! the only places where its results are taken on trust, and what they
//! compute is named, not defined, by [`ristretto_decodes`],
//! [`ristretto_hash`] and [`pedersen_commitment`].

use crate::errors::R1CSError;
use crate::scalar::group_order;
use crate::scalar::le_value;
use crate::scalar::Scalar;
use curve25519_dalek::constants::RISTRETTO_BASEPOINT_COMPRESSED;
use curve25519_dalek::ristretto::CompressedRistretto as DalekCompressed;
use curve25519_dalek::ristretto::RistrettoPoint;
use curve25519_dalek::scalar::Scalar as DalekScalar;
use curve25519_dalek::traits::MultiscalarMul;
use sha3::Sha3_512;
use vstd::prelude::*;

verus! {

/// Whether 32 bytes are the encoding of an element of the Ristretto group:
/// whether `CompressedRistretto::decompress` of `curve25519_dalek` gives a
/// point for them.
pub uninterp spec fn ristretto_decodes(bytes: Seq<u8>) -> bool;

/// The encoding of `value * B + blinding * B_blinding`, where `b` and
/// `b_blinding` are the encodings of the group elements `B` and
/// `B_blinding`: what `RistrettoPoint::multiscalar_mul` of
/// `curve25519_dalek` gives for them, compressed.
pub uninterp spec fn pedersen_commitment(
    value: nat,
    blinding: nat,
    b: Seq<u8>,
    b_blinding: Seq<u8>,
) -> Seq<u8>;

/// The encoding of the group element that `bytes` hash to: what
/// `RistrettoPoint::hash_from_bytes` of `curve25519_dalek` gives for them
/// with SHA3-512, compressed.
pub uninterp spec fn ristretto_hash(bytes: Seq<u8>) -> Seq<u8>;

/// The encoding of the Ristretto basepoint.
pub open spec fn basepoint_encoding() -> Seq<u8> {
    seq![
        0xe2u8, 0xf2, 0xae, 0x0a, 0x6a, 0xbc, 0x4e, 0x71, 0xa8, 0x84, 0xa9, 0x61, 0xc5, 0x00, 0x51,
        0x5f, 0x58, 0xe3, 0x0b, 0x6a, 0xa5, 0x82, 0xdd, 0x8d, 0xb6, 0xa6, 0x59, 0x45, 0xe0, 0x8d,
        0x2d, 0x76,
    ]
}

/// The encoding of an element of the Ristretto group.
#[derive(Clone, Copy, Debug, PartialEq, Eq)]
pub struct CompressedRistretto(pub [u8; 32]);

impl View for CompressedRistretto {
    type V = Seq<u8>;

    open spec fn view(&self) -> Seq<u8> {
        self.0@
    }
}

impl CompressedRistretto {
    /// The encoding held in a slice, which must have 32 bytes.
    pub fn from_slice(bytes: &[u8]) -> (r: Result<CompressedRistretto, R1CSError>)
        ensures
            bytes@.len() == 32 ==> r is Ok && r->Ok_0@ == bytes@,
            bytes@.len() != 32 ==> r is Err && r->Err_0 == R1CSError::FormatError,
    {
        if bytes.len() != 32 {
            return Err(R1CSError::FormatError);
        }
        let mut encoding = [0u8; 32];
        let mut i: usize = 0;
        while i < 32
            invariant
                i <= 32,
                bytes@.len() == 32,
                forall|k: int| 0 <= k < i ==> encoding@[k] == bytes@[k],
            decreases 32 - i,
        {
            encoding[i] = bytes[i];
            i += 1;
        }
        assert(encoding@ =~= bytes@);
        Ok(CompressedRistretto(encoding))
    }

    /// The 32 bytes of the encoding.
    pub fn to_bytes(&self) -> (r: [u8; 32])
        ensures
            r@ == self@,
    {
        self.0
    }
}

/// The encodings of a vector of group elements.
pub open spec fn points_view(points: Seq<CompressedRistretto>) -> Seq<Seq<u8>> {
    points.map_values(|p: CompressedRistretto| p@)
}

/// The two generators of a Pedersen commitment. Both are encodings of
/// elements of the group.
#[allow(non_snake_case)]
#[derive(Clone, Copy, Debug)]
pub struct PedersenGens {
    B: CompressedRistretto,
    B_blinding: CompressedRistretto,
}

impl PedersenGens {
    #[verifier::type_invariant]
    spec fn valid(self) -> bool {
        ristretto_decodes(self.B@) && ristretto_decodes(self.B_blinding@)
    }

    /// The encoding of the generator for values.
    pub closed spec fn base(self) -> Seq<u8> {
        self.B@
    }

    /// The encoding of the generator for blinding factors.
    pub closed spec fn blinding_base(self) -> Seq<u8> {
        self.B_blinding@
    }

    /// The encoding of the commitment to `value` with `blinding`.
    pub open spec fn spec_commit(self, value: nat, blinding: nat) -> Seq<u8> {
        pedersen_commitment(value, blinding, self.base(), self.blinding_base())
    }

    /// Generators with the given encodings, if both are encodings of group
    /// elements.
    #[allow(non_snake_case)]
    pub fn new(B: CompressedRistretto, B_blinding: CompressedRistretto) -> (r: Option<PedersenGens>)
        ensures
            r is Some <==> ristretto_decodes(B@) && ristretto_decodes(B_blinding@),
            r matches Some(gens) ==> gens.base() == B@ && gens.blinding_base() == B_blinding@,
    {
        if dalek_decodes(&B.0) && dalek_decodes(&B_blinding.0) {
            Some(PedersenGens { B, B_blinding })
        } else {
            None
        }
    }

    /// The commitment `value * B + blinding * B_blinding`.
    pub fn commit(&self, value: Scalar, blinding: Scalar) -> (r: CompressedRistretto)
        ensures
            r@ == self.spec_commit(value@, blinding@),
    {
        proof {
            use_type_invariant(self);
            value.lemma_reduced();
            blinding.lemma_reduced();
        }
        let value_bytes = value.to_bytes();
        let blinding_bytes = blinding.to_bytes();
        proof {
            vstd::arithmetic::div_mod::lemma_small_mod(le_value(value_bytes@), group_order());
            vstd::arithmetic::div_mod::lemma_small_mod(le_value(blinding_bytes@), group_order());
        }
        CompressedRistretto(
            dalek_commit(&value_bytes, &blinding_bytes, &self.B.0, &self.B_blinding.0),
        )
    }

    /// The encoding of the generator for values.
    pub fn base_point(&self) -> (r: CompressedRistretto)
        ensures
            r@ == self.base(),
    {
        self.B
    }

    /// The encoding of the generator for blinding factors.
    pub fn blinding_point(&self) -> (r: CompressedRistretto)
        ensures
            r@ == self.blinding_base(),
    {
        self.B_blinding
    }
}

impl Default for PedersenGens {
    /// The Ristretto basepoint, and the point that its encoding hashes to.
    fn default() -> (r: PedersenGens)
        ensures
            r.base() == basepoint_encoding(),
            r.blinding_base() == ristretto_hash(basepoint_encoding()),
    {
        let b = dalek_basepoint();
        let b_blinding = dalek_hash_to_point(b.as_slice());
        PedersenGens { B: CompressedRistretto(b), B_blinding: CompressedRistretto(b_blinding) }
    }
}

/// `CompressedRistretto::decompress` of `curve25519_dalek`: whether the
/// bytes decode to a group element.
#[verifier::external_body]
fn dalek_decodes(bytes: &[u8; 32]) -> (r: bool)
    ensures
        r == ristretto_decodes(bytes@),
{
    DalekCompressed(*bytes).decompress().is_some()
}

/// `RistrettoPoint::multiscalar_mul` of `curve25519_dalek` on two scalars
/// and two points, all taken and given back as encodings: the encoding of
/// `value * B + blinding * B_blinding`.
#[verifier::external_body]
fn dalek_commit(value: &[u8; 32], blinding: &[u8; 32], b: &[u8; 32], b_blinding: &[u8; 32]) -> (r:
    [u8; 32])
    requires
        ristretto_decodes(b@),
        ristretto_decodes(b_blinding@),
    ensures
        r@ == pedersen_commitment(
            le_value(value@) % group_order(),
            le_value(blinding@) % group_order(),
            b@,
            b_blinding@,
        ),
{
    let scalars = [
        DalekScalar::from_bytes_mod_order(*value),
        DalekScalar::from_bytes_mod_order(*blinding),
    ];
    let points = [
        DalekCompressed(*b).decompress().unwrap(),
        DalekCompressed(*b_blinding).decompress().unwrap(),
    ];
    RistrettoPoint::multiscalar_mul(&scalars, &points).compress().to_bytes()
}

/// `RISTRETTO_BASEPOINT_COMPRESSED` of `curve25519_dalek`: the encoding of
/// the Ristretto basepoint, which is an element of the group.
#[verifier::external_body]
fn dalek_basepoint() -> (r: [u8; 32])
    ensures
        r@ == basepoint_encoding(),
        ristretto_decodes(r@),
{
    RISTRETTO_BASEPOINT_COMPRESSED.to_bytes()
}

/// `RistrettoPoint::hash_from_bytes` of `curve25519_dalek`, with SHA3-512
/// of `sha3`, given back as an encoding: the encoding of the element of the
/// group that the bytes hash to.
#[verifier::external_body]
fn dalek_hash_to_point(bytes: &[u8]) -> (r: [u8; 32])
    ensures
        r@ == ristretto_hash(bytes@),
        ristretto_decodes(r@),
{
    RistrettoPoint::hash_from_bytes::<Sha3_512>(bytes).compress().to_bytes()
}

} // verus!
