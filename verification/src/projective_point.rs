//! Projective curve points `(X : Y : Z)`, standing for the affine point
//! `(X/Z, Y/Z)` when `Z != 0`; `Z == 0` encodes the point at infinity.

use vstd::prelude::*;

use crate::bigint::{big_clone, big_eq, big_from_u64, big_neg, big_value};
use crate::helpers::{affine_to_projective, projective_to_affine};
use crate::model::{p_is_inf, p_neutral, ProjV};
use crate::affine_point::EcPointA;
use crate::{EcCurve, EcError};
use num_bigint::BigInt;

verus! {

/// A projective point; the neutral element is canonically `(0, 1, 0)`.
#[derive(Debug)]
pub struct EcPointP {
    pub x: BigInt,
    pub y: BigInt,
    pub z: BigInt,
}

impl View for EcPointP {
    type V = ProjV;

    open(crate) spec fn view(&self) -> ProjV {
        ProjV { x: big_value(self.x), y: big_value(self.y), z: big_value(self.z) }
    }
}

impl Clone for EcPointP {
    fn clone(&self) -> (r: Self)
        ensures
            r@ == self@,
    {
        EcPointP { x: big_clone(&self.x), y: big_clone(&self.y), z: big_clone(&self.z) }
    }
}

impl PartialEq for EcPointP {
    fn eq(&self, other: &Self) -> (r: bool) {
        big_eq(&self.x, &other.x) && big_eq(&self.y, &other.y) && big_eq(&self.z, &other.z)
    }
}

impl vstd::std_specs::cmp::PartialEqSpecImpl for EcPointP {
    open spec fn obeys_eq_spec() -> bool {
        true
    }

    open spec fn eq_spec(&self, other: &Self) -> bool {
        self@ == other@
    }
}

impl EcPointP {
    /// A projective point with the given coordinates.
    pub fn new(x: &BigInt, y: &BigInt, z: &BigInt) -> (r: Self)
        ensures
            r@ == (ProjV { x: big_value(*x), y: big_value(*y), z: big_value(*z) }),
    {
        EcPointP { x: big_clone(x), y: big_clone(y), z: big_clone(z) }
    }

    /// The neutral element `(0, 1, 0)`.
    pub fn neutral() -> (r: Self)
        ensures
            r@ == p_neutral(),
    {
        EcPointP { x: big_from_u64(0), y: big_from_u64(1), z: big_from_u64(0) }
    }

    /// Whether this point encodes the point at infinity (`Z == 0`).
    pub fn is_inf(&self) -> (r: bool)
        ensures
            r == p_is_inf(self@),
    {
        let zero = big_from_u64(0);
        big_eq(&self.z, &zero)
    }

    /// Negation: `(X, Y, Z)` maps to `(X, -Y, Z)`.
    pub fn negative(&self) -> (r: EcPointP)
        ensures
            r@ == (ProjV { x: self@.x, y: -self@.y, z: self@.z }),
    {
        EcPointP { x: big_clone(&self.x), y: big_neg(&self.y), z: big_clone(&self.z) }
    }

    /// The projective form of an affine point.
    pub fn from_affine(a: &EcPointA, _ec_curve: &EcCurve) -> (r: Self)
        ensures
            r@ == crate::model::affine_to_proj_v(a@),
    {
        affine_to_projective(a)
    }

    /// The affine form of this point; fails when `Z` is not invertible
    /// modulo `q` (and is not a multiple of `q`).
    pub fn to_affine(&self, ec_curve: &EcCurve) -> (r: Result<EcPointA, EcError>)
        ensures
            r is Ok <==> (self@.z % ec_curve@.q == 0 || crate::model::coprime(
                self@.z,
                ec_curve@.q,
            )),
            r matches Ok(p) ==> crate::model::is_affine_of(ec_curve@, self@, p@),
            r matches Err(e) ==> e is ImpossibleToFindInverse,
    {
        projective_to_affine(ec_curve, self)
    }
}

} // verus!
