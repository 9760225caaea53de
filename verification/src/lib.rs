//! Elliptic-curve cryptography over a prime field in Weierstrass form,
//! together with three protocols built on it: Diffie-Hellman key agreement,
//! an ECDSA-style signature scheme, and hybrid (KEM+DEM) encryption.

pub mod affine_point;
pub mod bigint;
pub mod diffie_hellman;
pub mod digital_signature;
pub mod directed_encryption;
pub mod helpers;
pub mod laws;
pub mod model;
pub mod projective_point;

use vstd::prelude::*;

use crate::affine_point::EcPointA;
use crate::bigint::{big_add, big_clone, big_eq, big_from_u64, big_mul, big_value};
use crate::helpers::{projective_add, projective_mul, take_by_module};
use crate::model::{
    info_wf, InfoV,
    affine_to_proj_v, coprime, curve_wf, disc, is_affine_of, is_normalized_of,
    lemma_mod_inverse_rescale, on_affine_curve, on_proj_curve, p_add, p_mul, CurveV,
};
use crate::projective_point::EcPointP;
use num_bigint::BigInt;
use sha3::{Digest, Sha3_256};

verus! {

/// The digest that SHA3-256 assigns to a byte string; the result depends on
/// the bytes alone.
pub uninterp spec fn sha3_256_of(m: Seq<u8>) -> Seq<u8>;

/// Relies on `sha3::Sha3_256`: a 32-byte digest determined by the message
/// alone.
#[verifier::external_body]
pub fn hash(m: &[u8]) -> (r: Vec<u8>)
    ensures
        r@ == sha3_256_of(m@),
        r@.len() == 32,
{
    let mut hasher = Sha3_256::new();
    hasher.update(m);
    hasher.finalize()[..].to_vec()
}

/// The error taxonomy of the library.
#[derive(Debug)]
pub enum EcError {
    /// Curve or context parameters failed a sanity check.
    IncorrectParameters(String),
    /// The curve discriminant vanished modulo `q`: the curve is singular.
    NonZeroDiscriminant(BigInt),
    /// The extended-Euclidean algorithm found no modular inverse.
    ImpossibleToFindInverse(String),
    /// An AEAD layer rejected a ciphertext: wrong key or tampered data.
    AuthenticationFailure,
    /// The secure randomness source failed to produce usable output.
    RandomnessUnavailable,
}

/// The raw parameters of a Weierstrass curve `y^2 = x^3 + a*x + b (mod q)`.
#[derive(Debug)]
pub struct Params {
    pub a: BigInt,
    pub b: BigInt,
    pub q: BigInt,
}

impl Params {
    fn check_discriminant(&self) -> (r: Result<(), EcError>)
        ensures
            big_value(self.q) < 1 ==> (r matches Err(e) && e is IncorrectParameters),
            big_value(self.q) >= 1 ==> (r is Ok <==> disc(
                big_value(self.a),
                big_value(self.b),
                big_value(self.q),
            ) != 0),
            big_value(self.q) >= 1 && r is Err ==> (r matches Err(e) && e matches
                EcError::NonZeroDiscriminant(d) && big_value(d) == 0),
    {
        crate::helpers::check_discriminant(&self.a, &self.b, &self.q)
    }
}

/// An elliptic curve in Weierstrass form: points satisfy
/// `y^2 = x^3 + a*x + b (mod q)`, and the discriminant `4*a^3 + 27*b^2` does
/// not vanish modulo `q`.
#[derive(Debug)]
pub struct EcCurve {
    pub(crate) a: BigInt,
    pub(crate) b: BigInt,
    pub(crate) q: BigInt,
}

impl View for EcCurve {
    type V = CurveV;

    open(crate) spec fn view(&self) -> CurveV {
        CurveV { a: big_value(self.a), b: big_value(self.b), q: big_value(self.q) }
    }
}

impl EcCurve {
    /// Every curve value in circulation is non-singular with modulus at
    /// least 2.
    #[verifier::type_invariant]
    pub open(crate) spec fn wf(self) -> bool {
        curve_wf(self@)
    }

    /// Constructs a curve after the discriminant gate: construction fails
    /// exactly when `(4*a^3 + 27*b^2) mod q == 0` (or when the modulus is not
    /// positive), and succeeds otherwise.
    pub fn new(params: Params) -> (r: Result<Self, EcError>)
        ensures
            big_value(params.q) < 1 ==> (r matches Err(e) && e is IncorrectParameters),
            big_value(params.q) >= 1 ==> (r is Ok <==> disc(
                big_value(params.a),
                big_value(params.b),
                big_value(params.q),
            ) != 0),
            r matches Ok(c) ==> c@ == (CurveV {
                a: big_value(params.a),
                b: big_value(params.b),
                q: big_value(params.q),
            }) && curve_wf(c@),
            big_value(params.q) >= 1 && r is Err ==> (r matches Err(e) && e matches
                EcError::NonZeroDiscriminant(d) && big_value(d) == 0),
    {
        params.check_discriminant()?;
        proof {
            // A modulus of exactly 1 reduces every discriminant to 0, so the
            // gate having passed forces `q >= 2`.
            assert(big_value(params.q) >= 1);
            if big_value(params.q) == 1 {
                assert(disc(big_value(params.a), big_value(params.b), 1) == 0);
            }
        }
        let ec = EcCurve { a: params.a, b: params.b, q: params.q };
        Ok(ec)
    }

    /// Affine curve membership: `y^2 == x^3 + a*x + b (mod q)`; the point at
    /// infinity trivially passes.
    pub fn check_affine_point(&self, p: &EcPointA) -> (r: bool)
        ensures
            r == on_affine_curve(self@, p@),
    {
        proof {
            use_type_invariant(&*self);
        }
        if p.is_inf() {
            return true;
        }
        let q = &self.q;
        let lhs = take_by_module(&big_mul(&p.y, &p.y), q);
        let x_cubed = big_mul(&big_mul(&p.x, &p.x), &p.x);
        let a_x = big_mul(&self.a, &p.x);
        let rhs = take_by_module(&big_add(&big_add(&x_cubed, &a_x), &self.b), q);
        big_eq(&lhs, &rhs)
    }

    /// Projective curve membership:
    /// `Y^2*Z == X^3 + a*X*Z^2 + b*Z^3 (mod q)`.
    pub fn check_projective_point(&self, p: &EcPointP) -> (r: bool)
        ensures
            r == on_proj_curve(self@, p@),
    {
        proof {
            use_type_invariant(&*self);
        }
        let q = &self.q;
        let lhs = take_by_module(&big_mul(&big_mul(&p.y, &p.y), &p.z), q);
        let x_cubed = big_mul(&big_mul(&p.x, &p.x), &p.x);
        let a_x_zz = big_mul(&big_mul(&big_mul(&self.a, &p.x), &p.z), &p.z);
        let b_zzz = big_mul(&big_mul(&big_mul(&self.b, &p.z), &p.z), &p.z);
        let rhs = take_by_module(&big_add(&big_add(&x_cubed, &a_x_zz), &b_zzz), q);
        big_eq(&lhs, &rhs)
    }

    /// Adds two affine points through projective coordinates, converting the
    /// sum back to affine form.
    pub fn affine_point_add(&self, a: &EcPointA, b: &EcPointA) -> (r: Result<EcPointA, EcError>)
        ensures
            ({
                let sum = p_add(self@, affine_to_proj_v(a@), affine_to_proj_v(b@));
                &&& (r is Ok <==> (sum.z % self@.q == 0 || coprime(sum.z, self@.q)))
                &&& (r matches Ok(p) ==> is_affine_of(self@, sum, p@))
                &&& (r matches Err(e) ==> e is ImpossibleToFindInverse)
            }),
    {
        self.projective_point_add(&a.to_projective(), &b.to_projective()).to_affine(self)
    }

    /// Multiplies an affine point by a nonnegative scalar through projective
    /// coordinates, converting the result back to affine form.
    pub fn affine_point_mul(&self, a: &EcPointA, k: &BigInt) -> (r: Result<EcPointA, EcError>)
        requires
            big_value(*k) >= 0,
        ensures
            ({
                let prod = p_mul(self@, affine_to_proj_v(a@), big_value(*k) as nat);
                &&& (r is Ok <==> (prod.z % self@.q == 0 || coprime(prod.z, self@.q)))
                &&& (r matches Ok(p) ==> is_affine_of(self@, prod, p@))
                &&& (r matches Err(e) ==> e is ImpossibleToFindInverse)
            }),
    {
        self.projective_point_mul(&a.to_projective(), k).to_affine(self)
    }

    /// The projective group law.
    pub fn projective_point_add(&self, a: &EcPointP, b: &EcPointP) -> (r: EcPointP)
        ensures
            r@ == p_add(self@, a@, b@),
    {
        projective_add(self, a, b)
    }

    /// Scalar multiplication `k * P` by binary double-and-add; `k` must be
    /// nonnegative.
    pub fn projective_point_mul(&self, a: &EcPointP, k: &BigInt) -> (r: EcPointP)
        requires
            big_value(*k) >= 0,
        ensures
            r@ == p_mul(self@, a@, big_value(*k) as nat),
    {
        projective_mul(self, a, k)
    }

    /// Rescales a projective point so that `Z == 1`, multiplying `X` and `Y`
    /// by `Z^-1 mod q`; fails when `Z` is not invertible modulo `q`.
    pub fn transform_proj_point(&self, p: &EcPointP) -> (r: Result<EcPointP, EcError>)
        ensures
            r is Ok <==> coprime(p@.z, self@.q),
            r matches Ok(t) ==> is_normalized_of(self@, p@, t@),
            r matches Err(e) ==> e is ImpossibleToFindInverse,
    {
        proof {
            use_type_invariant(&*self);
        }
        match crate::helpers::inverse(&p.z, &self.q) {
            Ok(inv) => {
                let ghost qv = self@.q;
                proof {
                    vstd::arithmetic::div_mod::lemma_small_mod(1nat, qv as nat);
                    lemma_mod_inverse_rescale(p@.x, big_value(inv), p@.z, qv);
                    lemma_mod_inverse_rescale(p@.y, big_value(inv), p@.z, qv);
                }
                let x = take_by_module(&big_mul(&p.x, &inv), &self.q);
                let y = take_by_module(&big_mul(&p.y, &inv), &self.q);
                Ok(EcPointP { x, y, z: big_from_u64(1) })
            },
            Err(e) => Err(e),
        }
    }
}

impl Clone for EcCurve {
    fn clone(&self) -> (r: Self)
        ensures
            r@ == self@,
    {
        proof {
            use_type_invariant(&*self);
        }
        EcCurve { a: big_clone(&self.a), b: big_clone(&self.b), q: big_clone(&self.q) }
    }
}

/// A curve context: the curve, its base point (kept projectively), and the
/// base point's order `n`. This bundle is the unit of configuration handed
/// into every protocol operation.
#[derive(Debug)]
pub struct EcInfo {
    pub(crate) ecurve: EcCurve,
    pub(crate) bp: EcPointP,
    pub(crate) n: BigInt,
}

impl View for EcInfo {
    type V = InfoV;

    open(crate) spec fn view(&self) -> InfoV {
        InfoV { curve: self.ecurve@, bp: self.bp@, n: big_value(self.n) }
    }
}

impl EcInfo {
    /// Every context in circulation has a well-formed curve and an order of
    /// at least 3.
    #[verifier::type_invariant]
    pub open(crate) spec fn wf(self) -> bool {
        info_wf(self@)
    }

    /// Builds a context after validating the curve discriminant, the curve
    /// membership of the (affine) base point, and a minimal order.
    pub fn new(params: Params, base_point: &EcPointA, n: BigInt) -> (r: Result<Self, EcError>)
        ensures
            r is Ok <==> (big_value(params.q) >= 1 && disc(
                big_value(params.a),
                big_value(params.b),
                big_value(params.q),
            ) != 0 && on_affine_curve(
                (CurveV { a: big_value(params.a), b: big_value(params.b), q: big_value(params.q) }),
                base_point@,
            ) && big_value(n) >= 3),
            r matches Ok(info) ==> info@ == (InfoV {
                curve: CurveV {
                    a: big_value(params.a),
                    b: big_value(params.b),
                    q: big_value(params.q),
                },
                bp: affine_to_proj_v(base_point@),
                n: big_value(n),
            }) && info_wf(info@),
            r matches Err(e) ==> (e is IncorrectParameters || e is NonZeroDiscriminant),
            big_value(params.q) >= 1 && disc(
                big_value(params.a),
                big_value(params.b),
                big_value(params.q),
            ) == 0 ==> (r matches Err(e) && e is NonZeroDiscriminant),
    {
        let ecurve = match EcCurve::new(params) {
            Ok(c) => c,
            Err(e) => {
                return Err(e);
            },
        };
        if !ecurve.check_affine_point(base_point) {
            return Err(EcError::IncorrectParameters("base point is not on the curve".to_owned()));
        }
        let three = big_from_u64(3);
        if crate::bigint::big_lt(&n, &three) {
            return Err(EcError::IncorrectParameters("base point order is too small".to_owned()));
        }
        let bp = base_point.to_projective();
        Ok(EcInfo { ecurve, bp, n })
    }

    /// The curve of this context.
    pub fn get_curve(&self) -> (r: EcCurve)
        ensures
            r@ == self@.curve,
    {
        self.ecurve.clone()
    }

    /// The base point of this context, projectively.
    pub fn get_base_point(&self) -> (r: EcPointP)
        ensures
            r@ == self@.bp,
    {
        self.bp.clone()
    }

    /// The order of the base point.
    pub fn get_order(&self) -> (r: BigInt)
        ensures
            big_value(r) == self@.n,
    {
        big_clone(&self.n)
    }
}

impl Clone for EcInfo {
    fn clone(&self) -> (r: Self)
        ensures
            r@ == self@,
    {
        proof {
            use_type_invariant(&*self);
        }
        EcInfo { ecurve: self.ecurve.clone(), bp: self.bp.clone(), n: big_clone(&self.n) }
    }
}

/// Pre-generated standard curve parameter sets.
#[derive(Debug, Clone, Copy)]
pub enum PreGeneratedParams {
    /// The 192-bit NIST prime-field curve.
    P192,
}

impl EcInfo {
    /// Builds the context of a pre-generated standard curve. The constants
    /// pass the same validation as any other parameters; for the shipped
    /// curves that validation succeeds.
    pub fn from_pre_generated(preset: PreGeneratedParams) -> (r: Result<Self, EcError>)
        ensures
            r matches Ok(info) ==> info_wf(info@),
    {
        match preset {
            PreGeneratedParams::P192 => {
                let q = crate::bigint::big_from_bytes_be(
                    vec![
                        0xFFu8, 0xFF, 0xFF, 0xFF, 0xFF, 0xFF, 0xFF, 0xFF, 0xFF, 0xFF, 0xFF, 0xFF,
                        0xFF, 0xFF, 0xFF, 0xFE, 0xFF, 0xFF, 0xFF, 0xFF, 0xFF, 0xFF, 0xFF, 0xFF,
                    ].as_slice(),
                );
                let a = crate::bigint::big_from_bytes_be(
                    vec![
                        0xFFu8, 0xFF, 0xFF, 0xFF, 0xFF, 0xFF, 0xFF, 0xFF, 0xFF, 0xFF, 0xFF, 0xFF,
                        0xFF, 0xFF, 0xFF, 0xFE, 0xFF, 0xFF, 0xFF, 0xFF, 0xFF, 0xFF, 0xFF, 0xFC,
                    ].as_slice(),
                );
                let b = crate::bigint::big_from_bytes_be(
                    vec![
                        0x64u8, 0x21, 0x05, 0x19, 0xE5, 0x9C, 0x80, 0xE7, 0x0F, 0xA7, 0xE9, 0xAB,
                        0x72, 0x24, 0x30, 0x49, 0xFE, 0xB8, 0xDE, 0xEC, 0xC1, 0x46, 0xB9, 0xB1,
                    ].as_slice(),
                );
                let gx = crate::bigint::big_from_bytes_be(
                    vec![
                        0x18u8, 0x8D, 0xA8, 0x0E, 0xB0, 0x30, 0x90, 0xF6, 0x7C, 0xBF, 0x20, 0xEB,
                        0x43, 0xA1, 0x88, 0x00, 0xF4, 0xFF, 0x0A, 0xFD, 0x82, 0xFF, 0x10, 0x12,
                    ].as_slice(),
                );
                let gy = crate::bigint::big_from_bytes_be(
                    vec![
                        0x07u8, 0x19, 0x2B, 0x95, 0xFF, 0xC8, 0xDA, 0x78, 0x63, 0x10, 0x11, 0xED,
                        0x6B, 0x24, 0xCD, 0xD5, 0x73, 0xF9, 0x77, 0xA1, 0x1E, 0x79, 0x48, 0x11,
                    ].as_slice(),
                );
                let n = crate::bigint::big_from_bytes_be(
                    vec![
                        0xFFu8, 0xFF, 0xFF, 0xFF, 0xFF, 0xFF, 0xFF, 0xFF, 0xFF, 0xFF, 0xFF, 0xFF,
                        0x99, 0xDE, 0xF8, 0x36, 0x14, 0x6B, 0xC9, 0xB1, 0xB4, 0xD2, 0x28, 0x31,
                    ].as_slice(),
                );
                let base_point = EcPointA::new(&gx, &gy);
                EcInfo::new(Params { a, b, q }, &base_point, n)
            },
        }
    }
}

} // verus!
