//! Scalars of the BLS12-381 scalar field, modelled by their residue.
//!
//! A [`ScalarElem`] carries the foreign field element together with a ghost
//! residue in `[0, group_order())`.  Every operation states how the residue
//! of its result is derived from the residues of its arguments; the field
//! arithmetic itself is delegated to the `bls12_381` crate.

use vstd::prelude::*;
use vstd::pervasive::arbitrary;

use crate::algebra::{add_mod, group_order, le_bytes_of, le_bytes_val, mul_mod};

verus! {

#[verifier::external_type_specification]
#[verifier::external_body]
pub struct ExBlsScalar(bls12_381::Scalar);

/// An element of the prime field of the group's order.
pub struct ScalarElem {
    pub inner: bls12_381::Scalar,
    /// The residue this field element stands for.
    pub v: Ghost<nat>,
}

/// The canonical 32-byte little-endian encoding of the scalar with the given
/// residue, as produced by `bls12_381::Scalar::to_bytes`.
pub open spec fn scalar_enc(v: nat) -> Seq<u8> {
    le_bytes_of(v, 32)
}

impl ScalarElem {
    /// A scalar is well formed when its residue is reduced.
    pub open spec fn wf(self) -> bool {
        self.v@ < group_order()
    }

    /// Relies on `bls12_381::Scalar` being `Copy`, which copies the value.
    #[verifier::external_body]
    pub fn dup(&self) -> (r: ScalarElem)
        ensures
            r.v@ == self.v@,
    {
        ScalarElem { inner: self.inner, v: Ghost(arbitrary()) }
    }

    /// Relies on `bls12_381::Scalar::from(u64)`, which embeds an integer
    /// below the field order into the field.
    #[verifier::external_body]
    pub fn from_u64(x: u64) -> (r: ScalarElem)
        ensures
            r.wf(),
            r.v@ == x as nat,
    {
        ScalarElem { inner: bls12_381::Scalar::from(x), v: Ghost(arbitrary()) }
    }

    /// Relies on `bls12_381::Scalar`'s `Add`, which is field addition.
    #[verifier::external_body]
    pub fn add(&self, other: &ScalarElem) -> (r: ScalarElem)
        ensures
            r.wf(),
            r.v@ == add_mod(self.v@, other.v@),
    {
        ScalarElem { inner: self.inner + other.inner, v: Ghost(arbitrary()) }
    }

    /// Relies on `bls12_381::Scalar`'s `Mul`, which is field multiplication.
    #[verifier::external_body]
    pub fn mul(&self, other: &ScalarElem) -> (r: ScalarElem)
        ensures
            r.wf(),
            r.v@ == mul_mod(self.v@, other.v@),
    {
        ScalarElem { inner: self.inner * other.inner, v: Ghost(arbitrary()) }
    }

    /// Relies on `bls12_381::Scalar`'s `PartialEq`, which decides equality
    /// of field elements.
    #[verifier::external_body]
    pub fn equals(&self, other: &ScalarElem) -> (r: bool)
        ensures
            r == (self.v@ == other.v@),
    {
        self.inner == other.inner
    }

    /// Relies on `bls12_381::Scalar::to_bytes`, whose result is the canonical
    /// 32-byte little-endian encoding of the field element.
    #[verifier::external_body]
    pub fn to_bytes(&self) -> (r: Vec<u8>)
        ensures
            r@ == scalar_enc(self.v@),
            r@.len() == 32,
    {
        self.inner.to_bytes().to_vec()
    }

    /// Relies on `bls12_381::Scalar::from_bytes`, which accepts a 32-byte
    /// little-endian string exactly when its value is below the field order,
    /// and then returns the encoded element.
    #[verifier::external_body]
    pub fn from_bytes(bytes: &Vec<u8>) -> (r: Option<ScalarElem>)
        requires
            bytes@.len() == 32,
        ensures
            (match r {
                Some(s) => s.wf() && s.v@ == le_bytes_val(bytes@),
                None => le_bytes_val(bytes@) >= group_order(),
            }),
    {
        let mut arr = [0u8; 32];
        arr.copy_from_slice(&bytes[..]);
        Option::<bls12_381::Scalar>::from(bls12_381::Scalar::from_bytes(&arr))
            .map(|inner| ScalarElem { inner, v: Ghost(arbitrary()) })
    }

    /// Relies on `bls12_381::Scalar::from_bytes_wide`, which reduces a
    /// 64-byte little-endian integer modulo the field order.
    #[verifier::external_body]
    pub fn from_wide_bytes(bytes: &Vec<u8>) -> (r: ScalarElem)
        requires
            bytes@.len() == 64,
        ensures
            r.wf(),
            r.v@ == le_bytes_val(bytes@) % group_order(),
    {
        let mut arr = [0u8; 64];
        arr.copy_from_slice(&bytes[..]);
        ScalarElem { inner: bls12_381::Scalar::from_bytes_wide(&arr), v: Ghost(arbitrary()) }
    }

    /// Relies on `ff::Field::random` for `bls12_381::Scalar`, which draws a
    /// field element from the given transcript-seeded generator.
    #[verifier::external_body]
    pub fn random_from_transcript_rng(rng: &mut merlin::TranscriptRng) -> (r: ScalarElem)
        ensures
            r.wf(),
    {
        ScalarElem { inner: <bls12_381::Scalar as ff::Field>::random(rng), v: Ghost(arbitrary()) }
    }

    /// Relies on `ff::Field::random` for `bls12_381::Scalar` and on
    /// `rand::thread_rng`, drawing a field element from operating-system
    /// entropy.
    #[verifier::external_body]
    pub fn random_os() -> (r: ScalarElem)
        ensures
            r.wf(),
    {
        ScalarElem {
            inner: <bls12_381::Scalar as ff::Field>::random(&mut rand::thread_rng()),
            v: Ghost(arbitrary()),
        }
    }
}

} // verus!
