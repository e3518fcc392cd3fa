//! Elements of the BLS12-381 G1 group, modelled by their discrete logarithm.
//!
//! The group is cyclic of prime order, so every element is a unique scalar
//! multiple of the fixed generator.  A [`PointElem`] carries the foreign
//! group element together with a ghost residue: its discrete logarithm with
//! respect to the generator.  The group operations state how the residue of
//! their result is derived; the curve arithmetic itself is delegated to the
//! `bls12_381` crate.

use vstd::prelude::*;
use vstd::pervasive::arbitrary;

use crate::algebra::{add_mod, group_order, mul_mod, sub_mod};
use crate::errors::ProofError;
use crate::scalar::ScalarElem;

verus! {

#[verifier::external_type_specification]
#[verifier::external_body]
pub struct ExBlsG1Projective(bls12_381::G1Projective);

/// An element of the prime-order group.
pub struct PointElem {
    pub inner: bls12_381::G1Projective,
    /// The discrete logarithm of this element with respect to the generator.
    pub d: Ghost<nat>,
}

/// The canonical 48-byte compressed encoding of the group element with the
/// given discrete logarithm, as produced by `bls12_381::G1Affine::to_compressed`.
pub uninterp spec fn point_enc(d: nat) -> Seq<u8>;

impl PointElem {
    /// A point is well formed when its discrete logarithm is reduced.
    pub open spec fn wf(self) -> bool {
        self.d@ < group_order()
    }

    /// Relies on `bls12_381::G1Projective` being `Copy`, which copies the value.
    #[verifier::external_body]
    pub fn dup(&self) -> (r: PointElem)
        ensures
            r.d@ == self.d@,
    {
        PointElem { inner: self.inner, d: Ghost(arbitrary()) }
    }

    /// Relies on `bls12_381::G1Projective::identity`, the neutral element,
    /// whose discrete logarithm is zero.
    #[verifier::external_body]
    pub fn identity() -> (r: PointElem)
        ensures
            r.wf(),
            r.d@ == 0,
    {
        PointElem { inner: bls12_381::G1Projective::identity(), d: Ghost(arbitrary()) }
    }

    /// Relies on `bls12_381::G1Projective::generator`, the fixed generator,
    /// whose discrete logarithm is one.
    #[verifier::external_body]
    pub fn generator() -> (r: PointElem)
        ensures
            r.wf(),
            r.d@ == 1,
    {
        PointElem { inner: bls12_381::G1Projective::generator(), d: Ghost(arbitrary()) }
    }

    /// Relies on `bls12_381::G1Projective`'s `Add`, the group operation: the
    /// discrete logarithm of a sum is the sum of the discrete logarithms.
    #[verifier::external_body]
    pub fn add(&self, other: &PointElem) -> (r: PointElem)
        ensures
            r.wf(),
            r.d@ == add_mod(self.d@, other.d@),
    {
        PointElem { inner: self.inner + other.inner, d: Ghost(arbitrary()) }
    }

    /// Relies on `bls12_381::G1Projective`'s `Sub`, which subtracts group
    /// elements, so the discrete logarithms subtract.
    #[verifier::external_body]
    pub fn sub(&self, other: &PointElem) -> (r: PointElem)
        ensures
            r.wf(),
            r.d@ == sub_mod(self.d@, other.d@),
    {
        PointElem { inner: self.inner - other.inner, d: Ghost(arbitrary()) }
    }

    /// Relies on `bls12_381::G1Projective`'s `Mul<Scalar>`, scalar
    /// multiplication, which multiplies the discrete logarithm by the scalar.
    #[verifier::external_body]
    pub fn mul(&self, scalar: &ScalarElem) -> (r: PointElem)
        ensures
            r.wf(),
            r.d@ == mul_mod(scalar.v@, self.d@),
    {
        PointElem { inner: self.inner * scalar.inner, d: Ghost(arbitrary()) }
    }

    /// Relies on `bls12_381::G1Projective`'s `PartialEq`, which decides
    /// equality of group elements; the discrete-logarithm map is injective.
    #[verifier::external_body]
    pub fn equals(&self, other: &PointElem) -> (r: bool)
        ensures
            r == (self.d@ == other.d@),
    {
        self.inner == other.inner
    }

    /// Relies on `bls12_381::G1Affine::to_compressed`, whose result is the
    /// canonical 48-byte compressed encoding of the group element.
    #[verifier::external_body]
    pub fn to_bytes(&self) -> (r: Vec<u8>)
        ensures
            r@ == point_enc(self.d@),
            r@.len() == 48,
    {
        bls12_381::G1Affine::from(&self.inner).to_compressed().to_vec()
    }

    /// Relies on `bls12_381::G1Affine::from_compressed`, which accepts
    /// exactly the canonical compressed encodings of prime-order subgroup
    /// elements — including the curve, sign and subgroup checks — and
    /// returns the encoded element.
    #[verifier::external_body]
    pub fn from_bytes(bytes: &Vec<u8>) -> (r: Option<PointElem>)
        requires
            bytes@.len() == 48,
        ensures
            (match r {
                Some(p) => p.wf() && bytes@ == point_enc(p.d@) && (forall|d: nat|
                    d < group_order() && bytes@ == point_enc(d) ==> d == p.d@),
                None => forall|d: nat| d < group_order() ==> bytes@ != point_enc(d),
            }),
    {
        let mut arr = [0u8; 48];
        arr.copy_from_slice(&bytes[..]);
        Option::<bls12_381::G1Affine>::from(bls12_381::G1Affine::from_compressed(&arr)).map(
            |aff| PointElem { inner: bls12_381::G1Projective::from(aff), d: Ghost(arbitrary()) },
        )
    }
    /// Decode a canonical compressed encoding, reporting a malformed point
    /// as an error: exactly the byte strings that encode no group element
    /// are rejected.
    pub fn decode(bytes: &Vec<u8>) -> (r: Result<PointElem, ProofError>)
        requires
            bytes@.len() == 48,
        ensures
            (r is Err <==> (forall|d: nat| d < group_order() ==> bytes@ != point_enc(d))),
            (match r {
                Ok(p) => p.wf() && bytes@ == point_enc(p.d@) && (forall|d: nat|
                    d < group_order() && bytes@ == point_enc(d) ==> d == p.d@),
                Err(e) => e == ProofError::PointMalformed,
            }),
    {
        match PointElem::from_bytes(bytes) {
            Some(p) => Ok(p),
            None => Err(ProofError::PointMalformed),
        }
    }
}

} // verus!
