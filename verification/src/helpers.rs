//! Field-level helpers: modular reduction, modular exponentiation, the curve
//! discriminant test, and the extended-Euclidean modular inverse.

use vstd::arithmetic::div_mod::{
    lemma_add_mod_noop, lemma_basic_div, lemma_div_denominator, lemma_mod_self_0,
    lemma_mul_mod_noop_left, lemma_mul_mod_noop_right, lemma_small_mod, lemma_sub_mod_noop,
};
use vstd::arithmetic::mul::{lemma_mul_is_associative, lemma_mul_is_commutative};
use vstd::arithmetic::power::pow;
use vstd::arithmetic::power2::{lemma_pow2_pos, lemma_pow2_unfold, pow2};
use vstd::prelude::*;

use crate::affine_point::EcPointA;
use crate::bigint::{
    big_bit, big_bits, big_clone, big_div_floor, big_eq, big_from_u64, big_lt, big_mod_floor,
    big_mul, big_sub, big_value, inverse_failure_msg,
};
use crate::model::{
    affine_to_proj_v, coprime, disc, gcd_n, is_affine_of, lemma_mod_inverse_rescale, p_add,
    p_double, p_mul, p_neutral,
};
use crate::projective_point::EcPointP;
use crate::{EcCurve, EcError};
use num_bigint::BigInt;

verus! {

/// Reduces `x` into `[0, q)`: the value `x mod q`, also for negative `x`.
pub fn take_by_module(x: &BigInt, q: &BigInt) -> (r: BigInt)
    requires
        big_value(*q) >= 1,
    ensures
        big_value(r) == big_value(*x) % big_value(*q),
        0 <= big_value(r) < big_value(*q),
{
    big_mod_floor(x, q)
}

/// Modular exponentiation: `base^exp mod modulus`, by repeated
/// multiply-and-reduce.
pub fn mod_pow(base: &BigInt, exp: u64, modulus: &BigInt) -> (r: BigInt)
    requires
        big_value(*modulus) >= 1,
    ensures
        big_value(r) == pow(big_value(*base), exp as nat) % big_value(*modulus),
        0 <= big_value(r) < big_value(*modulus),
{
    let ghost bv = big_value(*base);
    let ghost mv = big_value(*modulus);
    let one = big_from_u64(1);
    let mut acc = big_mod_floor(&one, modulus);
    let mut i: u64 = 0;
    assert(pow(bv, 0) == 1) by {
        vstd::arithmetic::power::lemma_pow0(bv);
    }
    while i < exp
        invariant
            i <= exp,
            mv == big_value(*modulus),
            bv == big_value(*base),
            mv >= 1,
            big_value(acc) == pow(bv, i as nat) % mv,
        decreases exp - i,
    {
        let prod = big_mul(&acc, base);
        acc = big_mod_floor(&prod, modulus);
        proof {
            lemma_mul_mod_noop_left(pow(bv, i as nat), bv, mv);
            assert(pow(bv, (i + 1) as nat) == bv * pow(bv, i as nat)) by {
                reveal_with_fuel(pow, 2);
            }
            lemma_mul_is_commutative(pow(bv, i as nat), bv);
        }
        i = i + 1;
    }
    acc
}

/// The discriminant test: succeeds iff `(4*a^3 + 27*b^2) mod q != 0`, and
/// otherwise fails with the vanished discriminant value. A modulus below 1 is
/// rejected as an incorrect parameter.
pub fn check_discriminant(a: &BigInt, b: &BigInt, q: &BigInt) -> (r: Result<(), EcError>)
    ensures
        big_value(*q) < 1 ==> (r matches Err(e) && e is IncorrectParameters),
        big_value(*q) >= 1 ==> (r is Ok <==> disc(
            big_value(*a),
            big_value(*b),
            big_value(*q),
        ) != 0),
        big_value(*q) >= 1 && r is Err ==> (r matches Err(e) && e matches
            EcError::NonZeroDiscriminant(d) && big_value(d) == 0),
{
    let one = big_from_u64(1);
    if big_lt(q, &one) {
        return Err(EcError::IncorrectParameters("modulus must be positive".to_owned()));
    }
    let ghost av = big_value(*a);
    let ghost bv = big_value(*b);
    let ghost qv = big_value(*q);
    let four = big_from_u64(4);
    let twenty_seven = big_from_u64(27);
    let a_cubed = mod_pow(a, 3, q);
    let b_squared = mod_pow(b, 2, q);
    let sum = crate::bigint::big_add(&big_mul(&four, &a_cubed), &big_mul(&twenty_seven, &b_squared));
    let d = take_by_module(&sum, q);
    proof {
        assert(pow(av, 3) == av * av * av) by {
            reveal_with_fuel(pow, 4);
            lemma_mul_is_associative(av, av, av);
        }
        assert(pow(bv, 2) == bv * bv) by {
            reveal_with_fuel(pow, 3);
        }
        assert(4 * av * av * av == 4 * (av * av * av) && 27 * bv * bv == 27 * (bv * bv))
            by (nonlinear_arith);
        lemma_mul_mod_noop_right(4, av * av * av, qv);
        lemma_mul_mod_noop_right(27, bv * bv, qv);
        lemma_add_mod_noop(4 * ((av * av * av) % qv), 27 * ((bv * bv) % qv), qv);
        lemma_add_mod_noop(4 * (av * av * av), 27 * (bv * bv), qv);
    }
    let zero = big_from_u64(0);
    if !big_eq(&d, &zero) {
        Ok(())
    } else {
        Err(EcError::NonZeroDiscriminant(d))
    }
}

/// The extended-Euclidean modular inverse of `a` modulo `n`.
///
/// Succeeds exactly when `a` is invertible modulo `n` (that is, when
/// `gcd(a mod n, n) == 1`), and then returns the unique `t` in `[0, n)` with
/// `(a * t) mod n == 1 mod n`; this is the modular-inverse round trip.
pub fn inverse(a: &BigInt, n: &BigInt) -> (r: Result<BigInt, EcError>)
    requires
        big_value(*n) >= 1,
    ensures
        r is Ok <==> coprime(big_value(*a), big_value(*n)),
        r matches Ok(t) ==> {
            &&& 0 <= big_value(t) < big_value(*n)
            &&& (big_value(t) * big_value(*a)) % big_value(*n) == 1int % big_value(*n)
            &&& (big_value(*a) * big_value(t)) % big_value(*n) == 1int % big_value(*n)
        },
        r matches Err(e) ==> e is ImpossibleToFindInverse,
{
    let ghost nv = big_value(*n);
    let a_red = big_mod_floor(a, n);
    let ghost am = big_value(*a) % nv;

    let zero = big_from_u64(0);
    let one = big_from_u64(1);
    let mut t = big_from_u64(0);
    let mut r = big_clone(n);
    let mut new_t = big_from_u64(1);
    let mut new_r = a_red;

    proof {
        lemma_mod_self_0(nv);
        lemma_small_mod(am as nat, nv as nat);
        lemma_small_mod(0nat, nv as nat);
    }

    let mut done = big_eq(&new_r, &zero);
    while !done
        invariant
            big_value(zero) == 0,
            nv == big_value(*n),
            nv >= 1,
            am == big_value(*a) % nv,
            0 <= am < nv,
            0 <= big_value(new_r),
            1 <= big_value(r),
            done == (big_value(new_r) == 0),
            gcd_n(big_value(new_r) as nat, big_value(r) as nat) == gcd_n(am as nat, nv as nat),
            (big_value(t) * am) % nv == big_value(r) % nv,
            (big_value(new_t) * am) % nv == big_value(new_r) % nv,
        decreases big_value(new_r),
    {
        let ghost rv = big_value(r);
        let ghost nrv = big_value(new_r);
        let ghost tv = big_value(t);
        let ghost ntv = big_value(new_t);
        let quotient = big_div_floor(&r, &new_r);
        let ghost qv = big_value(quotient);

        let prod_t = big_mul(&quotient, &new_t);
        let next_t = big_sub(&t, &prod_t);
        t = new_t;
        new_t = next_t;

        let prod_r = big_mul(&quotient, &new_r);
        let next_r = big_sub(&r, &prod_r);
        r = new_r;
        new_r = next_r;

        proof {
            // The new remainder is `rv % nrv`.
            vstd::arithmetic::div_mod::lemma_fundamental_div_mod(rv, nrv);
            lemma_mul_is_commutative(qv, nrv);
            assert(big_value(new_r) == rv % nrv);
            vstd::arithmetic::div_mod::lemma_mod_division_less_than_divisor(rv, nrv);
            vstd::arithmetic::div_mod::lemma_mod_pos_bound(rv, nrv);
            // The gcd of the pair is preserved, by one unfolding of `gcd_n`.
            assert(gcd_n(nrv as nat, rv as nat) == gcd_n((rv % nrv) as nat, nrv as nat));
            // The Bezout congruence is preserved.
            vstd::arithmetic::mul::lemma_mul_is_distributive_sub_other_way(am, tv, qv * ntv);
            lemma_mul_is_associative(qv, ntv, am);
            assert((tv - qv * ntv) * am == tv * am - qv * (ntv * am));
            lemma_mul_mod_noop_right(qv, ntv * am, nv);
            lemma_mul_mod_noop_right(qv, nrv, nv);
            assert((qv * (ntv * am)) % nv == (qv * nrv) % nv);
            lemma_sub_mod_noop(tv * am, qv * (ntv * am), nv);
            lemma_sub_mod_noop(rv, qv * nrv, nv);
            assert((big_value(new_t) * am) % nv == (rv - qv * nrv) % nv);
        }
        done = big_eq(&new_r, &zero);
    }
    if big_lt(&one, &r) {
        return Err(EcError::ImpossibleToFindInverse(inverse_failure_msg(a, n)));
    }
    let t_red = big_mod_floor(&t, n);
    proof {
        let tv = big_value(t);
        lemma_mul_mod_noop_left(tv, am, nv);
        assert(((tv % nv) * am) % nv == big_value(r) % nv);
        lemma_mul_mod_noop_right(tv % nv, big_value(*a), nv);
        lemma_mul_is_commutative(tv % nv, big_value(*a));
        lemma_mul_mod_noop_right(big_value(*a), tv % nv, nv);
        lemma_mul_is_commutative(big_value(*a) % nv, tv % nv);
    }
    Ok(t_red)
}

/// The affine point at infinity is carried as an explicit flag, never as a
/// coordinate pair, so no finite `(x, y)` encodes it.
#[allow(unused_variables)]
pub fn check_affine_point_for_inf(x: &BigInt, y: &BigInt) -> (r: bool)
    ensures
        r == false,
{
    false
}

/// The projective form `(x, y, 1)` of a finite affine point, or the neutral
/// element for the point at infinity.
pub fn affine_to_projective(a: &EcPointA) -> (r: EcPointP)
    ensures
        r@ == affine_to_proj_v(a@),
{
    if a.is_inf() {
        return EcPointP::neutral();
    }
    EcPointP { x: big_clone(&a.x), y: big_clone(&a.y), z: big_from_u64(1) }
}

/// Transforms `(X, Y, Z)` into the affine `(X * Z^-1 mod q, Y * Z^-1 mod q)`;
/// a `Z` that is a multiple of `q` (the point at infinity) gives the affine
/// infinity, and a `Z` that shares a factor with `q` surfaces the failed
/// inverse.
pub fn projective_to_affine(ec: &EcCurve, a: &EcPointP) -> (r: Result<EcPointA, EcError>)
    ensures
        r is Ok <==> (a@.z % ec@.q == 0 || coprime(a@.z, ec@.q)),
        r matches Ok(p) ==> is_affine_of(ec@, a@, p@),
        r matches Err(e) ==> e is ImpossibleToFindInverse,
{
    proof {
        use_type_invariant(&*ec);
    }
    let zero = big_from_u64(0);
    let z_red = take_by_module(&a.z, &ec.q);
    if big_eq(&z_red, &zero) {
        return Ok(EcPointA::infinity());
    }
    match inverse(&a.z, &ec.q) {
        Ok(inv) => {
            let ghost qv = ec@.q;
            proof {
                lemma_small_mod(1nat, qv as nat);
                lemma_mod_inverse_rescale(a@.x, big_value(inv), a@.z, qv);
                lemma_mod_inverse_rescale(a@.y, big_value(inv), a@.z, qv);
            }
            let x = take_by_module(&big_mul(&a.x, &inv), &ec.q);
            let y = take_by_module(&big_mul(&a.y, &inv), &ec.q);
            Ok(EcPointA { x, y, is_inf: false })
        },
        Err(e) => Err(e),
    }
}

/// The projective group law: the case split on infinity, equal `x`
/// projection (doubling or inverse pair), and the general chord case, with
/// every coordinate reduced into `[0, q)`.
pub(crate) fn projective_add(ec_curve: &EcCurve, a: &EcPointP, b: &EcPointP) -> (r: EcPointP)
    ensures
        r@ == p_add(ec_curve@, a@, b@),
{
    proof {
        use_type_invariant(&*ec_curve);
    }
    if a.is_inf() {
        return b.clone();
    }
    if b.is_inf() {
        return a.clone();
    }

    let q = &ec_curve.q;
    let u_1 = take_by_module(&big_mul(&b.y, &a.z), q);
    let u_2 = take_by_module(&big_mul(&a.y, &b.z), q);
    let v_1 = take_by_module(&big_mul(&b.x, &a.z), q);
    let v_2 = take_by_module(&big_mul(&a.x, &b.z), q);

    if big_eq(&v_1, &v_2) {
        if big_eq(&u_1, &u_2) {
            return projective_double(ec_curve, a);
        } else {
            return EcPointP::neutral();
        }
    }

    let two = big_from_u64(2);
    let u = take_by_module(&big_sub(&u_1, &u_2), q);
    let v = take_by_module(&big_sub(&v_1, &v_2), q);
    let w = take_by_module(&big_mul(&a.z, &b.z), q);
    let u_sq_w = big_mul(&big_mul(&u, &u), &w);
    let v_cu = big_mul(&big_mul(&v, &v), &v);
    let two_v_sq_v2 = big_mul(&big_mul(&big_mul(&two, &v), &v), &v_2);
    let a_val = take_by_module(&big_sub(&big_sub(&u_sq_w, &v_cu), &two_v_sq_v2), q);
    let x3 = take_by_module(&big_mul(&v, &a_val), q);
    let v_sq_v2 = big_mul(&big_mul(&v, &v), &v_2);
    let y3 = take_by_module(
        &big_sub(&big_mul(&u, &big_sub(&v_sq_v2, &a_val)), &big_mul(&v_cu, &u_2)),
        q,
    );
    let z3 = take_by_module(&big_mul(&v_cu, &w), q);
    EcPointP { x: x3, y: y3, z: z3 }
}

/// Projective doubling: the tangent case of the group law; a point at
/// infinity or with `Y == 0` doubles to the neutral element.
pub(crate) fn projective_double(ec_curve: &EcCurve, a: &EcPointP) -> (r: EcPointP)
    ensures
        r@ == p_double(ec_curve@, a@),
{
    proof {
        use_type_invariant(&*ec_curve);
    }
    let zero = big_from_u64(0);
    if a.is_inf() || big_eq(&a.y, &zero) {
        return EcPointP::neutral();
    }
    let q = &ec_curve.q;
    let two = big_from_u64(2);
    let three = big_from_u64(3);
    let t = take_by_module(
        &crate::bigint::big_add(
            &big_mul(&big_mul(&three, &a.x), &a.x),
            &big_mul(&big_mul(&ec_curve.a, &a.z), &a.z),
        ),
        q,
    );
    let u = take_by_module(&big_mul(&big_mul(&two, &a.y), &a.z), q);
    let v = take_by_module(&big_mul(&big_mul(&big_mul(&two, &u), &a.x), &a.y), q);
    let w = take_by_module(&big_sub(&big_mul(&t, &t), &big_mul(&two, &v)), q);
    let rx = take_by_module(&big_mul(&u, &w), q);
    let ry = take_by_module(
        &big_sub(
            &big_mul(&t, &big_sub(&v, &w)),
            &big_mul(&big_mul(&big_mul(&big_mul(&two, &u), &u), &a.y), &a.y),
        ),
        q,
    );
    let rz = take_by_module(&big_mul(&big_mul(&u, &u), &u), q);
    EcPointP { x: rx, y: ry, z: rz }
}

/// Scalar multiplication `k * P` by binary double-and-add over the bits of
/// `k`, most significant bit first, into an identity-initialized accumulator.
pub(crate) fn projective_mul(ec_curve: &EcCurve, a: &EcPointP, k: &BigInt) -> (r: EcPointP)
    requires
        big_value(*k) >= 0,
    ensures
        r@ == p_mul(ec_curve@, a@, big_value(*k) as nat),
{
    let ghost kv = big_value(*k);
    let bits = big_bits(k);
    let mut acc = EcPointP::neutral();
    proof {
        lemma_pow2_pos(bits as nat);
        lemma_basic_div(kv, pow2(bits as nat) as int);
        assert(p_mul(ec_curve@, a@, 0) == p_neutral());
    }
    let mut i = bits;
    while i > 0
        invariant
            i <= bits,
            kv == big_value(*k),
            kv >= 0,
            kv < pow2(bits as nat),
            acc@ == p_mul(ec_curve@, a@, (kv / pow2(i as nat) as int) as nat),
        decreases i,
    {
        i = i - 1;
        let ghost m_hi = kv / pow2((i + 1) as nat) as int;
        let ghost m_lo = kv / pow2(i as nat) as int;
        acc = projective_double(ec_curve, &acc);
        let b = big_bit(k, i);
        proof {
            lemma_pow2_pos(i as nat);
            lemma_pow2_pos((i + 1) as nat);
            assert(pow2((i + 1) as nat) == 2 * pow2(i as nat)) by {
                lemma_pow2_unfold((i + 1) as nat);
            }
            lemma_div_denominator(kv, pow2(i as nat) as int, 2);
            vstd::arithmetic::div_mod::lemma_fundamental_div_mod(m_lo, 2);
            vstd::arithmetic::div_mod::lemma_mod_pos_bound(m_lo, 2);
            assert(m_lo / 2 == m_hi);
            assert(m_lo == 2 * m_hi + (m_lo % 2));
            if m_lo == 0 {
                assert(p_mul(ec_curve@, a@, 0) == p_neutral());
                assert(p_double(ec_curve@, p_neutral()) == p_neutral());
            }
        }
        if b {
            acc = projective_add(ec_curve, &acc, a);
        }
    }
    proof {
        assert(pow2(0) == 1) by {
            vstd::arithmetic::power2::lemma2_to64();
        }
        assert(kv / 1 == kv) by {
            vstd::arithmetic::div_mod::lemma_div_basics(kv);
        }
    }
    acc
}

} // verus!
