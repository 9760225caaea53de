//! Group laws of the projective arithmetic that follow directly from the
//! case structure of the operations, stated and proved over the spec-level
//! model that the executable contracts are written against.

use vstd::arithmetic::div_mod::{
    lemma_mod_add_multiples_vanish, lemma_mod_twice, lemma_mul_mod_noop, lemma_small_mod,
    lemma_sub_mod_noop,
};
use vstd::arithmetic::mul::{lemma_mul_is_commutative, lemma_mul_unary_negation};
use vstd::prelude::*;

use crate::model::{
    affine_to_proj_v, coprime, curve_wf, is_normalized_of, on_affine_curve, on_proj_curve, p_add,
    p_double, p_is_inf, p_neutral, AffV, CurveV, ProjV,
};

verus! {

/// `s` and `t` encode one projective point: their `x` and `y` coordinates
/// agree after rescaling by the other's `z`, and they are at infinity
/// together.
pub open spec fn same_projective_point(c: CurveV, s: ProjV, t: ProjV) -> bool {
    &&& (s.x * t.z - t.x * s.z) % c.q == 0
    &&& (s.y * t.z - t.y * s.z) % c.q == 0
    &&& (s.z % c.q == 0 <==> t.z % c.q == 0)
}

/// Congruent factors give congruent products.
proof fn lemma_cong_mul(a: int, a2: int, b: int, b2: int, q: int)
    requires
        q >= 1,
        a % q == a2 % q,
        b % q == b2 % q,
    ensures
        (a * b) % q == (a2 * b2) % q,
{
    lemma_mul_mod_noop(a, b, q);
    lemma_mul_mod_noop(a2, b2, q);
}

/// Congruent operands give congruent differences.
proof fn lemma_cong_sub(a: int, a2: int, b: int, b2: int, q: int)
    requires
        q >= 1,
        a % q == a2 % q,
        b % q == b2 % q,
    ensures
        (a - b) % q == (a2 - b2) % q,
{
    lemma_sub_mod_noop(a, b, q);
    lemma_sub_mod_noop(a2, b2, q);
}

/// Group identity: adding the point at infinity on either side leaves a
/// finite point exactly as it is, and keeps an infinite point at infinity.
pub proof fn lemma_add_identity(c: CurveV, p: ProjV)
    ensures
        p_add(c, p_neutral(), p) == p,
        !p_is_inf(p) ==> p_add(c, p, p_neutral()) == p,
        p_is_inf(p) ==> p_is_inf(p_add(c, p, p_neutral())),
{
}

/// Doubling consistency: adding a point to itself takes exactly the doubling
/// branch of the group law, and the point at infinity stays at infinity
/// either way.
pub proof fn lemma_add_self_is_double(c: CurveV, p: ProjV)
    ensures
        !p_is_inf(p) ==> p_add(c, p, p) == p_double(c, p),
        p_is_inf(p) ==> p_is_inf(p_add(c, p, p)) && p_is_inf(p_double(c, p)),
{
}

/// Inverse points: a finite affine point added to its negation yields the
/// point at infinity, over any curve with an odd modulus.
pub proof fn lemma_add_negative_is_infinity(c: CurveV, a: AffV)
    requires
        curve_wf(c),
        c.q % 2 == 1,
        !a.inf,
        0 <= a.y < c.q,
    ensures
        p_is_inf(
            p_add(c, affine_to_proj_v(a), affine_to_proj_v(AffV { x: a.x, y: -a.y, inf: false })),
        ),
{
    let p = affine_to_proj_v(a);
    let r = affine_to_proj_v(AffV { x: a.x, y: -a.y, inf: false });
    let q = c.q;
    assert(p.z == 1 && r.z == 1);
    let u1 = (r.y * p.z) % q;
    let u2 = (p.y * r.z) % q;
    assert(u2 == a.y % q);
    assert(a.y % q == a.y) by {
        lemma_small_mod(a.y as nat, q as nat);
    }
    if a.y == 0 {
        // The negation is the point itself, and doubling a point with
        // `y == 0` gives the neutral element.
        assert(u1 == u2);
    } else {
        // `(-y) mod q == q - y`, which differs from `y` because `q` is odd.
        assert(u1 == (-a.y) % q);
        assert((-a.y) % q == (q + -a.y) % q) by {
            lemma_mod_add_multiples_vanish(-a.y, q);
        }
        assert((q - a.y) % q == q - a.y) by {
            lemma_small_mod((q - a.y) as nat, q as nat);
        }
        assert(u1 == q - a.y);
        assert(u1 != u2);
    }
}

/// Commutativity of the group law for points that do not coincide: adding in
/// either order yields one projective point (the two raw results differ
/// exactly by the projective rescaling `-1`). The case of two
/// representatives of one finite point is the doubling branch and is not
/// covered here.
pub proof fn lemma_add_commutative_distinct(c: CurveV, p: ProjV, r: ProjV)
    requires
        curve_wf(c),
        !(!p_is_inf(p) && !p_is_inf(r) && (r.x * p.z) % c.q == (p.x * r.z) % c.q && (r.y * p.z)
            % c.q == (p.y * r.z) % c.q),
    ensures
        same_projective_point(c, p_add(c, p, r), p_add(c, r, p)),
{
    let q = c.q;
    let s = p_add(c, p, r);
    let t = p_add(c, r, p);
    lemma_small_mod(0nat, q as nat);
    if p.z == 0 || r.z == 0 {
        // One operand is the identity: both orders return the other operand,
        // except when both are at infinity, where both results stay there.
    } else {
        let u1 = (r.y * p.z) % q;
        let u2 = (p.y * r.z) % q;
        let v1 = (r.x * p.z) % q;
        let v2 = (p.x * r.z) % q;
        if v1 == v2 {
            // The coincidence case is excluded, so this is an inverse pair:
            // both orders return the neutral element.
            assert(u1 != u2);
            assert(s == p_neutral() && t == p_neutral());
        } else {
            let uu = u1 - u2;
            let vv = v1 - v2;
            let ww = p.z * r.z;
            let nu = -uu;
            let nv = -vv;
            let u = uu % q;
            let v = vv % q;
            let w = ww % q;
            let us = nu % q;
            let vs = nv % q;
            let ws = (r.z * p.z) % q;
            lemma_mul_is_commutative(r.z, p.z);
            assert(ws == ww % q);
            lemma_mod_twice(uu, q);
            lemma_mod_twice(vv, q);
            lemma_mod_twice(ww, q);
            lemma_mod_twice(nu, q);
            lemma_mod_twice(nv, q);

            // The first sum, with every reduction pushed outward.
            let t1h = uu * uu * ww;
            let t2h = vv * vv * vv;
            let t3h = 2 * vv * vv * v2;
            let ah = t1h - t2h - t3h;
            let a_red = (u * u * w - v * v * v - 2 * v * v * v2) % q;
            lemma_cong_mul(u, uu, u, uu, q);
            lemma_cong_mul(u * u, uu * uu, w, ww, q);
            lemma_cong_mul(v, vv, v, vv, q);
            lemma_cong_mul(v * v, vv * vv, v, vv, q);
            lemma_cong_mul(2, 2, v, vv, q);
            lemma_cong_mul(2 * v, 2 * vv, v, vv, q);
            lemma_cong_mul(2 * v * v, 2 * vv * vv, v2, v2, q);
            lemma_cong_sub(u * u * w, t1h, v * v * v, t2h, q);
            lemma_cong_sub(u * u * w - v * v * v, t1h - t2h, 2 * v * v * v2, t3h, q);
            lemma_mod_twice(ah, q);
            assert(a_red % q == ah % q);
            lemma_cong_mul(v, vv, a_red, ah, q);
            lemma_cong_mul(v * v, vv * vv, v2, v2, q);
            lemma_cong_sub(v * v * v2, vv * vv * v2, a_red, ah, q);
            lemma_cong_mul(u, uu, v * v * v2 - a_red, vv * vv * v2 - ah, q);
            lemma_cong_mul(v * v * v, t2h, u2, u2, q);
            lemma_cong_sub(
                u * (v * v * v2 - a_red),
                uu * (vv * vv * v2 - ah),
                v * v * v * u2,
                t2h * u2,
                q,
            );
            lemma_cong_mul(v * v * v, t2h, w, ww, q);
            let xh = vv * ah;
            let yh = uu * (vv * vv * v2 - ah) - t2h * u2;
            let zh = t2h * ww;
            assert(s.x == (v * a_red) % q && s.x % q == xh % q) by {
                lemma_mod_twice(xh, q);
                lemma_mod_twice(v * a_red, q);
            }
            assert(s.y % q == yh % q) by {
                lemma_mod_twice(yh, q);
                lemma_mod_twice(u * (v * v * v2 - a_red) - v * v * v * u2, q);
            }
            assert(s.z % q == zh % q) by {
                lemma_mod_twice(zh, q);
                lemma_mod_twice(v * v * v * w, q);
            }

            // The swapped sum, reduced the same way.
            let t1sh = nu * nu * ww;
            let t2sh = nv * nv * nv;
            let t3sh = 2 * nv * nv * v1;
            let ash = t1sh - t2sh - t3sh;
            let as_red = (us * us * ws - vs * vs * vs - 2 * vs * vs * v1) % q;
            lemma_cong_mul(us, nu, us, nu, q);
            lemma_cong_mul(us * us, nu * nu, ws, ww, q);
            lemma_cong_mul(vs, nv, vs, nv, q);
            lemma_cong_mul(vs * vs, nv * nv, vs, nv, q);
            lemma_cong_mul(2, 2, vs, nv, q);
            lemma_cong_mul(2 * vs, 2 * nv, vs, nv, q);
            lemma_cong_mul(2 * vs * vs, 2 * nv * nv, v1, v1, q);
            lemma_cong_sub(us * us * ws, t1sh, vs * vs * vs, t2sh, q);
            lemma_cong_sub(us * us * ws - vs * vs * vs, t1sh - t2sh, 2 * vs * vs * v1, t3sh, q);
            lemma_mod_twice(ash, q);
            assert(as_red % q == ash % q);
            lemma_cong_mul(vs, nv, as_red, ash, q);
            lemma_cong_mul(vs * vs, nv * nv, v1, v1, q);
            lemma_cong_sub(vs * vs * v1, nv * nv * v1, as_red, ash, q);
            lemma_cong_mul(us, nu, vs * vs * v1 - as_red, nv * nv * v1 - ash, q);
            lemma_cong_mul(vs * vs * vs, t2sh, u1, u1, q);
            lemma_cong_sub(
                us * (vs * vs * v1 - as_red),
                nu * (nv * nv * v1 - ash),
                vs * vs * vs * u1,
                t2sh * u1,
                q,
            );
            lemma_cong_mul(vs * vs * vs, t2sh, ws, ww, q);
            assert(t.x % q == (nv * ash) % q) by {
                lemma_mod_twice(nv * ash, q);
                lemma_mod_twice(vs * as_red, q);
            }
            assert(t.y % q == (nu * (nv * nv * v1 - ash) - t2sh * u1) % q) by {
                lemma_mod_twice(nu * (nv * nv * v1 - ash) - t2sh * u1, q);
                lemma_mod_twice(us * (vs * vs * v1 - as_red) - vs * vs * vs * u1, q);
            }
            assert(t.z % q == (t2sh * ww) % q) by {
                lemma_mod_twice(t2sh * ww, q);
                lemma_mod_twice(vs * vs * vs * ws, q);
            }

            // As plain integers, the swapped sum is the first one negated.
            assert(ash == ah) by (nonlinear_arith)
                requires
                    vv == v1 - v2,
                    nu == -uu,
                    nv == -vv,
                    t1h == uu * uu * ww,
                    t2h == vv * vv * vv,
                    t3h == 2 * vv * vv * v2,
                    ah == t1h - t2h - t3h,
                    t1sh == nu * nu * ww,
                    t2sh == nv * nv * nv,
                    t3sh == 2 * nv * nv * v1,
                    ash == t1sh - t2sh - t3sh,
            ;
            assert(nv * ash == -xh) by (nonlinear_arith)
                requires
                    ash == ah,
                    nv == -vv,
                    xh == vv * ah,
            ;
            assert(nv * nv == vv * vv) by (nonlinear_arith)
                requires
                    nv == -vv,
            ;
            assert(t2sh == -t2h) by (nonlinear_arith)
                requires
                    nv == -vv,
                    t2sh == nv * nv * nv,
                    t2h == vv * vv * vv,
            ;
            assert(nu * (nv * nv * v1 - ash) == -(uu * (vv * vv * v1 - ah))) by (nonlinear_arith)
                requires
                    ash == ah,
                    nu == -uu,
                    nv * nv == vv * vv,
            ;
            assert(-(uu * (vv * vv * v1 - ah)) + t2h * u1 == -(uu * (vv * vv * v2 - ah) - t2h * u2))
                by (nonlinear_arith)
                requires
                    uu == u1 - u2,
                    vv == v1 - v2,
                    t2h == vv * vv * vv,
            ;
            lemma_mul_unary_negation(t2h, u1);
            assert(t2sh * u1 == -(t2h * u1));
            assert(nu * (nv * nv * v1 - ash) - t2sh * u1 == -yh);
            assert(t2sh * ww == -zh) by (nonlinear_arith)
                requires
                    nv == -vv,
                    t2sh == nv * nv * nv,
                    t2h == vv * vv * vv,
                    zh == t2h * ww,
            ;

            // Cross products of the two results vanish modulo `q`.
            lemma_cong_mul(s.x, xh, t.z, -zh, q);
            lemma_cong_mul(t.x, -xh, s.z, zh, q);
            assert(xh * (-zh) == (-xh) * zh) by (nonlinear_arith);
            lemma_cong_sub(s.x * t.z, xh * (-zh), t.x * s.z, (-xh) * zh, q);
            lemma_cong_mul(s.y, yh, t.z, -zh, q);
            lemma_cong_mul(t.y, -yh, s.z, zh, q);
            assert(yh * (-zh) == (-yh) * zh) by (nonlinear_arith);
            lemma_cong_sub(s.y * t.z, yh * (-zh), t.y * s.z, (-yh) * zh, q);

            // At infinity together: `zh` and `-zh` vanish together mod `q`.
            lemma_sub_mod_noop(0, zh, q);
            lemma_sub_mod_noop(0, -zh, q);
            assert(s.z % q == 0 <==> t.z % q == 0);
        }
    }
}

/// The two membership tests agree: an affine point satisfies the affine
/// curve equation exactly when its projective form satisfies the projective
/// one (the point at infinity passes both).
pub proof fn lemma_membership_agrees(c: CurveV, a: AffV)
    ensures
        on_affine_curve(c, a) <==> on_proj_curve(c, affine_to_proj_v(a)),
{
    if a.inf {
        let p = p_neutral();
        assert((p.y * p.y * p.z) % c.q == 0int % c.q);
        assert((p.x * p.x * p.x + c.a * p.x * p.z * p.z + c.b * p.z * p.z * p.z) % c.q == 0int
            % c.q);
    }
}

/// Idempotence of normalization: normalizing an already-normalized point
/// changes nothing, and an already-normalized point can always be normalized
/// again (its `Z == 1` is invertible).
pub proof fn lemma_transform_idempotent(c: CurveV, p: ProjV, r1: ProjV, r2: ProjV)
    requires
        c.q >= 2,
        is_normalized_of(c, p, r1),
        is_normalized_of(c, r1, r2),
    ensures
        coprime(r1.z, c.q),
        r2 == r1,
{
    crate::model::lemma_coprime_one(c.q);
    let q = c.q;
    assert(r2.x % q == r2.x && r1.x % q == r1.x && r2.y % q == r2.y && r1.y % q == r1.y) by {
        lemma_small_mod(r2.x as nat, q as nat);
        lemma_small_mod(r1.x as nat, q as nat);
        lemma_small_mod(r2.y as nat, q as nat);
        lemma_small_mod(r1.y as nat, q as nat);
    }
    assert(r2.x == r1.x && r2.y == r1.y);
}

} // verus!
