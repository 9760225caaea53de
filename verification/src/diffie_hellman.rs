//! Diffie-Hellman key agreement: ephemeral secrets, public keys, and shared
//! secrets derived by scalar multiplication under one curve context.

use vstd::prelude::*;

use crate::bigint::{big_clone, big_eq, big_from_u64, big_sub, big_value, gen_random_bigint};
use crate::model::{coprime, info_wf, is_normalized_of, p_mul, InfoV, ProjV};
use crate::projective_point::EcPointP;
use crate::{EcError, EcInfo};
use num_bigint::BigInt;

verus! {

/// Spec-level view of a public key: its context and its curve point.
pub struct PublicKeyV {
    pub info: InfoV,
    pub point: ProjV,
}

/// Spec-level view of a shared secret: its context and its (normalized)
/// curve point.
pub struct SharedSecretV {
    pub info: InfoV,
    pub point: ProjV,
}

/// Spec-level view of an ephemeral secret: its context and the scalar.
pub struct EphemeralSecretV {
    pub info: InfoV,
    pub k: int,
}

/// A public key `k * basePoint`, tied to the context it was derived under.
#[derive(Debug)]
pub struct PublicKey {
    pub(crate) ec_info: EcInfo,
    pub(crate) shared_point: EcPointP,
}

/// The curve point resulting from Diffie-Hellman combination, in normalized
/// form so that equal secrets compare equal.
#[derive(Debug)]
pub struct SharedSecret {
    pub(crate) ec_info: EcInfo,
    pub(crate) shared_point: EcPointP,
}

/// A short-lived Diffie-Hellman secret scalar, drawn from `[2, n - 1]`, meant
/// to be used for a single agreement or signature nonce.
#[derive(Debug)]
pub struct EphemeralSecret {
    pub(crate) ec_info: EcInfo,
    pub(crate) k: BigInt,
}

impl View for PublicKey {
    type V = PublicKeyV;

    open(crate) spec fn view(&self) -> PublicKeyV {
        PublicKeyV { info: self.ec_info@, point: self.shared_point@ }
    }
}

impl View for SharedSecret {
    type V = SharedSecretV;

    open(crate) spec fn view(&self) -> SharedSecretV {
        SharedSecretV { info: self.ec_info@, point: self.shared_point@ }
    }
}

impl View for EphemeralSecret {
    type V = EphemeralSecretV;

    open(crate) spec fn view(&self) -> EphemeralSecretV {
        EphemeralSecretV { info: self.ec_info@, k: big_value(self.k) }
    }
}

impl SharedSecret {
    /// A shared secret always carries a normalized point: `Z == 1` and both
    /// coordinates reduced into `[0, q)`.
    #[verifier::type_invariant]
    pub open(crate) spec fn wf(self) -> bool {
        &&& self@.point.z == 1
        &&& 0 <= self@.point.x < self@.info.curve.q
        &&& 0 <= self@.point.y < self@.info.curve.q
    }

    /// The shared curve point.
    pub fn get_point_proj(&self) -> (r: EcPointP)
        ensures
            r@ == self@.point,
    {
        self.shared_point.clone()
    }

    /// The context the secret was derived under.
    pub fn get_ec_info(&self) -> (r: EcInfo)
        ensures
            r@ == self@.info,
    {
        self.ec_info.clone()
    }
}

impl Clone for SharedSecret {
    fn clone(&self) -> (r: Self)
        ensures
            r@ == self@,
    {
        proof {
            use_type_invariant(&*self);
        }
        SharedSecret { ec_info: self.ec_info.clone(), shared_point: self.shared_point.clone() }
    }
}

impl PartialEq for SharedSecret {
    fn eq(&self, other: &Self) -> (r: bool) {
        let infos_equal = big_eq(&self.ec_info.ecurve.a, &other.ec_info.ecurve.a) && big_eq(
            &self.ec_info.ecurve.b,
            &other.ec_info.ecurve.b,
        ) && big_eq(&self.ec_info.ecurve.q, &other.ec_info.ecurve.q) && big_eq(
            &self.ec_info.bp.x,
            &other.ec_info.bp.x,
        ) && big_eq(&self.ec_info.bp.y, &other.ec_info.bp.y) && big_eq(
            &self.ec_info.bp.z,
            &other.ec_info.bp.z,
        ) && big_eq(&self.ec_info.n, &other.ec_info.n);
        infos_equal && big_eq(&self.shared_point.x, &other.shared_point.x) && big_eq(
            &self.shared_point.y,
            &other.shared_point.y,
        ) && big_eq(&self.shared_point.z, &other.shared_point.z)
    }
}

impl vstd::std_specs::cmp::PartialEqSpecImpl for SharedSecret {
    open spec fn obeys_eq_spec() -> bool {
        true
    }

    open spec fn eq_spec(&self, other: &Self) -> bool {
        self@ == other@
    }
}

impl EphemeralSecret {
    /// Every ephemeral secret holds a scalar in `[2, n - 1]` for its context.
    #[verifier::type_invariant]
    pub open(crate) spec fn wf(self) -> bool {
        &&& info_wf(self@.info)
        &&& 2 <= self@.k <= self@.info.n - 1
    }

    /// Draws a fresh secret scalar uniformly from `[2, n - 1]` using the
    /// process-wide secure randomness source.
    pub fn random(ec_info: &EcInfo) -> (r: EphemeralSecret)
        ensures
            r@.info == ec_info@,
            2 <= r@.k <= ec_info@.n - 1,
    {
        proof {
            use_type_invariant(&*ec_info);
        }
        let two = big_from_u64(2);
        let one = big_from_u64(1);
        let high = big_sub(&ec_info.n, &one);
        let k = gen_random_bigint(&two, &high);
        EphemeralSecret { ec_info: ec_info.clone(), k }
    }

    /// Derives the shared secret `k * pointB`, normalized so that two
    /// cross-derived secrets under one context compare equal; a failed
    /// normalization (a shared point at infinity) surfaces the inverse
    /// failure unchanged.
    pub fn diffie_hellman(&self, pub_key: PublicKey) -> (r: Result<SharedSecret, EcError>)
        ensures
            ({
                let prod = p_mul(self@.info.curve, pub_key@.point, self@.k as nat);
                &&& (r is Ok <==> coprime(prod.z, self@.info.curve.q))
                &&& (r matches Ok(s) ==> s@.info == self@.info && is_normalized_of(
                    self@.info.curve,
                    prod,
                    s@.point,
                ))
                &&& (r matches Err(e) ==> e is ImpossibleToFindInverse)
            }),
    {
        proof {
            use_type_invariant(&*self);
        }
        let curve = &self.ec_info.ecurve;
        let prod = curve.projective_point_mul(&pub_key.shared_point, &self.k);
        match curve.transform_proj_point(&prod) {
            Ok(point) => Ok(
                SharedSecret { ec_info: self.ec_info.clone(), shared_point: point },
            ),
            Err(e) => Err(e),
        }
    }

    /// The secret scalar.
    pub(crate) fn get_key(&self) -> (r: BigInt)
        ensures
            big_value(r) == self@.k,
    {
        big_clone(&self.k)
    }
}

impl PublicKey {
    /// Derives the public key `k * basePoint` of an ephemeral secret.
    pub fn from_secret(value: &EphemeralSecret) -> (r: PublicKey)
        ensures
            r@.info == value@.info,
            r@.point == p_mul(value@.info.curve, value@.info.bp, value@.k as nat),
    {
        proof {
            use_type_invariant(&*value);
        }
        let shared_point = value.ec_info.ecurve.projective_point_mul(&value.ec_info.bp, &value.k);
        PublicKey { ec_info: value.ec_info.clone(), shared_point }
    }

    /// The public curve point.
    pub fn get_point_proj(&self) -> (r: EcPointP)
        ensures
            r@ == self@.point,
    {
        self.shared_point.clone()
    }
}

impl From<&EphemeralSecret> for PublicKey {
    fn from(value: &EphemeralSecret) -> Self {
        PublicKey::from_secret(value)
    }
}

impl vstd::std_specs::convert::FromSpecImpl<&EphemeralSecret> for PublicKey {
    open spec fn obeys_from_spec() -> bool {
        false
    }

    open spec fn from_spec(v: &EphemeralSecret) -> PublicKey {
        arbitrary()
    }
}

} // verus!
