//! Affine curve points `(x, y)` with an explicit point-at-infinity flag.

use vstd::prelude::*;

use crate::bigint::{big_clone, big_eq, big_from_u64, big_neg, big_value};
use crate::helpers::{affine_to_projective, projective_to_affine};
use crate::model::AffV;
use crate::projective_point::EcPointP;
use crate::{EcCurve, EcError};
use num_bigint::BigInt;

verus! {

/// An affine point: coordinates `(x, y)`, or the point at infinity when
/// `is_inf` is set (the coordinates then carry no meaning).
#[derive(Debug)]
pub struct EcPointA {
    pub(crate) x: BigInt,
    pub(crate) y: BigInt,
    pub(crate) is_inf: bool,
}

impl View for EcPointA {
    type V = AffV;

    open(crate) spec fn view(&self) -> AffV {
        AffV { x: big_value(self.x), y: big_value(self.y), inf: self.is_inf }
    }
}

impl Clone for EcPointA {
    fn clone(&self) -> (r: Self)
        ensures
            r@ == self@,
    {
        EcPointA { x: big_clone(&self.x), y: big_clone(&self.y), is_inf: self.is_inf }
    }
}

impl PartialEq for EcPointA {
    fn eq(&self, other: &Self) -> (r: bool) {
        self.is_inf == other.is_inf && big_eq(&self.x, &other.x) && big_eq(&self.y, &other.y)
    }
}

impl vstd::std_specs::cmp::PartialEqSpecImpl for EcPointA {
    open spec fn obeys_eq_spec() -> bool {
        true
    }

    open spec fn eq_spec(&self, other: &Self) -> bool {
        self@ == other@
    }
}

impl EcPointA {
    /// A finite affine point with the given coordinates.
    pub fn new(x: &BigInt, y: &BigInt) -> (r: Self)
        ensures
            r@ == (AffV { x: big_value(*x), y: big_value(*y), inf: false }),
    {
        EcPointA { x: big_clone(x), y: big_clone(y), is_inf: false }
    }

    /// The affine point at infinity, the group identity.
    pub fn infinity() -> (r: Self)
        ensures
            r@ == (AffV { x: 0, y: 0, inf: true }),
    {
        EcPointA { x: big_from_u64(0), y: big_from_u64(0), is_inf: true }
    }

    /// Whether this is the point at infinity.
    pub fn is_inf(&self) -> (r: bool)
        ensures
            r == self@.inf,
    {
        self.is_inf
    }

    /// The `x` coordinate.
    pub fn get_x(&self) -> (r: BigInt)
        ensures
            big_value(r) == self@.x,
    {
        big_clone(&self.x)
    }

    /// The `y` coordinate.
    pub fn get_y(&self) -> (r: BigInt)
        ensures
            big_value(r) == self@.y,
    {
        big_clone(&self.y)
    }

    /// The affine form of a projective point; fails when `Z` is not
    /// invertible modulo `q` (and is not a multiple of `q`).
    pub fn from_projective(a: &EcPointP, ec_curve: &EcCurve) -> (r: Result<Self, EcError>)
        ensures
            r is Ok <==> (a@.z % ec_curve@.q == 0 || crate::model::coprime(a@.z, ec_curve@.q)),
            r matches Ok(p) ==> crate::model::is_affine_of(ec_curve@, a@, p@),
            r matches Err(e) ==> e is ImpossibleToFindInverse,
    {
        projective_to_affine(ec_curve, a)
    }

    /// The projective form `(x, y, 1)` of a finite point, or the neutral
    /// element for the point at infinity.
    pub fn to_projective(&self) -> (r: EcPointP)
        ensures
            r@ == crate::model::affine_to_proj_v(self@),
    {
        affine_to_projective(self)
    }

    /// Negation: `(x, y)` maps to `(x, -y)`; the point at infinity is its own
    /// negative.
    pub fn negative(&self) -> (r: EcPointA)
        ensures
            r@ == (AffV { x: self@.x, y: -self@.y, inf: self@.inf }),
    {
        EcPointA { x: big_clone(&self.x), y: big_neg(&self.y), is_inf: self.is_inf }
    }
}

} // verus!
