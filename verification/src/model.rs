//! Mathematical model of the curve arithmetic: spec-level curves, points,
//! the projective group operations, and the helper notions (gcd, byte values)
//! that the contracts of the executable layer are stated over.

use vstd::arithmetic::power::pow;
use vstd::prelude::*;

verus! {

/// Spec-level Weierstrass curve `y^2 = x^3 + a*x + b` over the field of
/// integers modulo the prime `q`.
pub struct CurveV {
    pub a: int,
    pub b: int,
    pub q: int,
}

/// Spec-level projective point `(X : Y : Z)`; `z == 0` encodes the point at
/// infinity.
pub struct ProjV {
    pub x: int,
    pub y: int,
    pub z: int,
}

/// Spec-level affine point, with an explicit infinity flag.
pub struct AffV {
    pub x: int,
    pub y: int,
    pub inf: bool,
}

/// The discriminant test value `(4*a^3 + 27*b^2) mod q`, reduced into `[0, q)`.
pub open spec fn disc(a: int, b: int, q: int) -> int {
    (4 * a * a * a + 27 * b * b) % q
}

/// A curve is well formed when its modulus is at least 2 and its discriminant
/// does not vanish modulo `q` (the curve is non-singular).
pub open spec fn curve_wf(c: CurveV) -> bool {
    &&& c.q >= 2
    &&& disc(c.a, c.b, c.q) != 0
}

/// The canonical projective neutral element `(0 : 1 : 0)`.
pub open spec fn p_neutral() -> ProjV {
    ProjV { x: 0, y: 1, z: 0 }
}

/// Whether a projective point encodes the point at infinity.
pub open spec fn p_is_inf(p: ProjV) -> bool {
    p.z == 0
}

/// Projective doubling: the result of `double(P)` with every intermediate
/// value reduced into `[0, q)`.
pub open spec fn p_double(c: CurveV, p: ProjV) -> ProjV {
    if p.z == 0 || p.y == 0 {
        p_neutral()
    } else {
        let q = c.q;
        let t = (3 * p.x * p.x + c.a * p.z * p.z) % q;
        let u = (2 * p.y * p.z) % q;
        let v = (2 * u * p.x * p.y) % q;
        let w = (t * t - 2 * v) % q;
        ProjV {
            x: (u * w) % q,
            y: (t * (v - w) - 2 * u * u * p.y * p.y) % q,
            z: (u * u * u) % q,
        }
    }
}

/// Projective addition: the case split of the group law, with every
/// intermediate value reduced into `[0, q)`.
pub open spec fn p_add(c: CurveV, p: ProjV, r: ProjV) -> ProjV {
    if p.z == 0 {
        r
    } else if r.z == 0 {
        p
    } else {
        let q = c.q;
        let u1 = (r.y * p.z) % q;
        let u2 = (p.y * r.z) % q;
        let v1 = (r.x * p.z) % q;
        let v2 = (p.x * r.z) % q;
        if v1 == v2 {
            if u1 == u2 {
                p_double(c, p)
            } else {
                p_neutral()
            }
        } else {
            let u = (u1 - u2) % q;
            let v = (v1 - v2) % q;
            let w = (p.z * r.z) % q;
            let a = (u * u * w - v * v * v - 2 * v * v * v2) % q;
            ProjV {
                x: (v * a) % q,
                y: (u * (v * v * v2 - a) - v * v * v * u2) % q,
                z: (v * v * v * w) % q,
            }
        }
    }
}

/// Scalar multiplication `k * P` by binary double-and-add, most significant
/// bit first: processing one more low-order bit doubles the accumulator and
/// adds `P` when the bit is set.
pub open spec fn p_mul(c: CurveV, p: ProjV, k: nat) -> ProjV
    decreases k,
{
    if k == 0 {
        p_neutral()
    } else {
        let h = p_double(c, p_mul(c, p, k / 2));
        if k % 2 == 1 {
            p_add(c, h, p)
        } else {
            h
        }
    }
}

/// Affine curve membership `y^2 == x^3 + a*x + b (mod q)`; the point at
/// infinity trivially passes.
pub open spec fn on_affine_curve(c: CurveV, p: AffV) -> bool {
    p.inf || (p.y * p.y) % c.q == (p.x * p.x * p.x + c.a * p.x + c.b) % c.q
}

/// Projective curve membership `Y^2*Z == X^3 + a*X*Z^2 + b*Z^3 (mod q)`.
pub open spec fn on_proj_curve(c: CurveV, p: ProjV) -> bool {
    (p.y * p.y * p.z) % c.q == (p.x * p.x * p.x + c.a * p.x * p.z * p.z + c.b * p.z * p.z * p.z)
        % c.q
}

/// Greatest common divisor by the Euclidean recursion.
pub open spec fn gcd_n(x: nat, y: nat) -> nat
    decreases x,
{
    if x == 0 {
        y
    } else {
        gcd_n(y % x, x)
    }
}

/// Whether `x` is invertible modulo `m` (for `m >= 1`).
pub open spec fn coprime(x: int, m: int) -> bool {
    gcd_n((x % m) as nat, m as nat) == 1
}

/// `a` is the affine form of the projective point `p`: infinity when `Z` is a
/// multiple of `q`, and otherwise the unique pair of reduced coordinates that
/// rescale by `Z` back to `X` and `Y` modulo `q`.
pub open spec fn is_affine_of(c: CurveV, p: ProjV, a: AffV) -> bool {
    if p.z % c.q == 0 {
        a.inf && a.x == 0 && a.y == 0
    } else {
        &&& !a.inf
        &&& 0 <= a.x < c.q
        &&& 0 <= a.y < c.q
        &&& (a.x * p.z) % c.q == p.x % c.q
        &&& (a.y * p.z) % c.q == p.y % c.q
    }
}

/// `r` is the normalized form of `p`: the same projective point rescaled so
/// that `Z == 1`, with reduced coordinates.
pub open spec fn is_normalized_of(c: CurveV, p: ProjV, r: ProjV) -> bool {
    &&& r.z == 1
    &&& 0 <= r.x < c.q
    &&& 0 <= r.y < c.q
    &&& (r.x * p.z) % c.q == p.x % c.q
    &&& (r.y * p.z) % c.q == p.y % c.q
}

/// Spec-level curve context: a curve, its base point, and the base point's
/// order `n`.
pub struct InfoV {
    pub curve: CurveV,
    pub bp: ProjV,
    pub n: int,
}

/// A context is well formed when its curve is, and the order leaves room for
/// a secret scalar in `[2, n - 1]`.
pub open spec fn info_wf(i: InfoV) -> bool {
    &&& curve_wf(i.curve)
    &&& i.n >= 3
}

/// `1` is invertible modulo any `q >= 2`.
pub proof fn lemma_coprime_one(q: int)
    requires
        q >= 2,
    ensures
        coprime(1, q),
{
    assert(1int % q == 1) by {
        vstd::arithmetic::div_mod::lemma_small_mod(1nat, q as nat);
    }
    assert(gcd_n(1nat, q as nat) == gcd_n((q % 1) as nat, 1nat));
    assert(q % 1 == 0) by {
        vstd::arithmetic::div_mod::lemma_mod_self_0(1);
        vstd::arithmetic::div_mod::lemma_mod_bound(q, 1);
    }
    assert(gcd_n(0nat, 1nat) == 1);
}

/// The projective form of an affine point: `(x, y, 1)` for a finite point,
/// and the neutral element for the point at infinity.
pub open spec fn affine_to_proj_v(a: AffV) -> ProjV {
    if a.inf {
        p_neutral()
    } else {
        ProjV { x: a.x, y: a.y, z: 1 }
    }
}

/// Rescaling a reduced product by the inverted factor gives back the original
/// residue: if `t` inverts `z` modulo `q`, then `((x*t mod q) * z) mod q` is
/// `x mod q`.
pub proof fn lemma_mod_inverse_rescale(x: int, t: int, z: int, q: int)
    requires
        q >= 2,
        (t * z) % q == 1,
    ensures
        (((x * t) % q) * z) % q == x % q,
{
    vstd::arithmetic::div_mod::lemma_mul_mod_noop_left(x * t, z, q);
    vstd::arithmetic::mul::lemma_mul_is_associative(x, t, z);
    vstd::arithmetic::div_mod::lemma_mul_mod_noop_right(x, t * z, q);
}

/// The gcd is at least 1 and divides both arguments.
pub proof fn lemma_gcd_divides(x: nat, y: nat)
    requires
        x > 0 || y > 0,
    ensures
        gcd_n(x, y) >= 1,
        x as int % (gcd_n(x, y) as int) == 0,
        y as int % (gcd_n(x, y) as int) == 0,
    decreases x,
{
    if x == 0 {
        vstd::arithmetic::div_mod::lemma_small_mod(0nat, y);
        vstd::arithmetic::div_mod::lemma_mod_self_0(y as int);
    } else {
        lemma_gcd_divides(y % x, x);
        let g = gcd_n(y % x, x) as int;
        // `y` is a multiple of `g` because both `x` and `y % x` are.
        vstd::arithmetic::div_mod::lemma_small_mod(0nat, g as nat);
        vstd::arithmetic::div_mod::lemma_fundamental_div_mod(y as int, x as int);
        vstd::arithmetic::mul::lemma_mul_is_commutative(y as int / x as int, x as int);
        vstd::arithmetic::div_mod::lemma_mul_mod_noop_right(y as int / x as int, x as int, g);
        assert(((y as int / x as int) * (x as int)) % g == 0) by {
            vstd::arithmetic::mul::lemma_mul_basics(y as int / x as int);
        }
        vstd::arithmetic::div_mod::lemma_add_mod_noop(
            (y as int / x as int) * (x as int),
            (y % x) as int,
            g,
        );
        vstd::arithmetic::div_mod::lemma_small_mod(0nat, g as nat);
    }
}

/// Extended Euclid at the spec level: coefficients that combine the two
/// arguments into their gcd.
pub proof fn lemma_bezout(x: nat, y: nat) -> (st: (int, int))
    ensures
        st.0 * x + st.1 * y == gcd_n(x, y),
    decreases x,
{
    if x == 0 {
        (0int, 1int)
    } else {
        let sub = lemma_bezout(y % x, x);
        let s2 = sub.0;
        let t2 = sub.1;
        let qt = y as int / x as int;
        vstd::arithmetic::div_mod::lemma_fundamental_div_mod(y as int, x as int);
        let st = (t2 - s2 * qt, s2);
        assert(st.0 * x + st.1 * y == s2 * ((y % x) as int) + t2 * x) by (nonlinear_arith)
            requires
                st.0 == t2 - s2 * qt,
                st.1 == s2,
                (y % x) as int == y as int - qt * x as int,
        ;
        st
    }
}

/// A value coprime to the modulus has an inverse, reduced into `[0, n)`.
pub proof fn lemma_mod_inverse_exists(a: int, n: int) -> (t: int)
    requires
        n >= 1,
        coprime(a, n),
    ensures
        0 <= t < n,
        (t * a) % n == 1int % n,
{
    let am = (a % n) as nat;
    let st = lemma_bezout(am, n as nat);
    let s = st.0;
    let tt = st.1;
    assert(s * am + tt * n == 1);
    assert((s * (am as int)) % n == 1int % n) by {
        vstd::arithmetic::div_mod::lemma_mod_multiples_vanish(-tt, 1, n);
        assert(s * (am as int) == n * (-tt) + 1) by (nonlinear_arith)
            requires
                s * am + tt * n == 1,
        ;
    }
    let t = s % n;
    vstd::arithmetic::div_mod::lemma_mod_bound(s, n);
    vstd::arithmetic::div_mod::lemma_mul_mod_noop_left(s, am as int, n);
    vstd::arithmetic::div_mod::lemma_mul_mod_noop_right(t, a, n);
    t
}

/// Multiplication by a value coprime to the modulus can be cancelled on
/// reduced operands.
pub proof fn lemma_mod_cancel(x1: int, x2: int, z: int, q: int)
    requires
        q >= 1,
        coprime(z, q),
        0 <= x1 < q,
        0 <= x2 < q,
        (x1 * z) % q == (x2 * z) % q,
    ensures
        x1 == x2,
{
    if q == 1 {
        // both values lie in `[0, 1)`
    } else {
        let t = lemma_mod_inverse_exists(z, q);
        vstd::arithmetic::div_mod::lemma_small_mod(1nat, q as nat);
        assert(((x1 * z) * t) % q == ((x2 * z) * t) % q) by {
            vstd::arithmetic::div_mod::lemma_mul_mod_noop_left(x1 * z, t, q);
            vstd::arithmetic::div_mod::lemma_mul_mod_noop_left(x2 * z, t, q);
        }
        assert(((x1 * z) * t) % q == x1) by {
            vstd::arithmetic::mul::lemma_mul_is_associative(x1, z, t);
            vstd::arithmetic::div_mod::lemma_mul_mod_noop_right(x1, z * t, q);
            vstd::arithmetic::mul::lemma_mul_is_commutative(z, t);
            assert((x1 * ((t * z) % q)) % q == (x1 * 1) % q);
            vstd::arithmetic::div_mod::lemma_small_mod(x1 as nat, q as nat);
        }
        assert(((x2 * z) * t) % q == x2) by {
            vstd::arithmetic::mul::lemma_mul_is_associative(x2, z, t);
            vstd::arithmetic::div_mod::lemma_mul_mod_noop_right(x2, z * t, q);
            vstd::arithmetic::mul::lemma_mul_is_commutative(z, t);
            assert((x2 * ((t * z) % q)) % q == (x2 * 1) % q);
            vstd::arithmetic::div_mod::lemma_small_mod(x2 as nat, q as nat);
        }
    }
}

/// An inverse modulo `n` witnesses coprimality.
pub proof fn lemma_inverse_implies_coprime(t: int, a: int, n: int)
    requires
        n >= 2,
        (t * a) % n == 1int % n,
    ensures
        coprime(a, n),
{
    let am = (a % n) as nat;
    lemma_gcd_divides(am, n as nat);
    let g = gcd_n(am, n as nat) as int;
    vstd::arithmetic::div_mod::lemma_small_mod(1nat, n as nat);
    // `t * a` is congruent to `t * am` modulo `n`, and both are multiples of
    // `g` up to a multiple of `n`, so `g` divides 1.
    vstd::arithmetic::div_mod::lemma_mul_mod_noop_right(t, a, n);
    let p = t * (am as int);
    assert(p % n == 1) by {
        vstd::arithmetic::div_mod::lemma_mul_mod_noop_right(t, am as int, n);
    }
    vstd::arithmetic::div_mod::lemma_fundamental_div_mod(p, n);
    assert(p % g == 0) by {
        vstd::arithmetic::div_mod::lemma_mul_mod_noop_right(t, am as int, g);
        assert((t * 0) % g == 0) by {
            vstd::arithmetic::mul::lemma_mul_basics(t);
            vstd::arithmetic::div_mod::lemma_small_mod(0nat, g as nat);
        }
    }
    assert(((p / n) * n) % g == 0) by {
        vstd::arithmetic::div_mod::lemma_mul_mod_noop_right(p / n, n, g);
        assert(((p / n) * 0) % g == 0) by {
            vstd::arithmetic::mul::lemma_mul_basics(p / n);
            vstd::arithmetic::div_mod::lemma_small_mod(0nat, g as nat);
        }
    }
    assert(1int % g == 0) by {
        vstd::arithmetic::div_mod::lemma_sub_mod_noop(p, (p / n) * n, g);
        vstd::arithmetic::mul::lemma_mul_is_commutative(p / n, n);
        assert(p - (p / n) * n == 1);
        vstd::arithmetic::div_mod::lemma_small_mod(0nat, g as nat);
    }
    if g >= 2 {
        vstd::arithmetic::div_mod::lemma_small_mod(1nat, g as nat);
    }
}

/// The affine form of a projective point is unique whenever the conversion
/// is defined (the point is at infinity, or its `Z` is invertible).
pub proof fn lemma_affine_unique(c: CurveV, p: ProjV, a1: AffV, a2: AffV)
    requires
        c.q >= 2,
        p.z % c.q == 0 || coprime(p.z, c.q),
        is_affine_of(c, p, a1),
        is_affine_of(c, p, a2),
    ensures
        a1 == a2,
{
    if p.z % c.q != 0 {
        lemma_mod_cancel(a1.x, a2.x, p.z, c.q);
        lemma_mod_cancel(a1.y, a2.y, p.z, c.q);
    }
}

/// An inverse modulo `n`, reduced into `[0, n)`, is unique.
pub proof fn lemma_mod_inverse_unique(t1: int, t2: int, a: int, n: int)
    requires
        n >= 1,
        0 <= t1 < n,
        0 <= t2 < n,
        (t1 * a) % n == 1int % n,
        (t2 * a) % n == 1int % n,
    ensures
        t1 == t2,
{
    if n == 1 {
        // both values lie in `[0, 1)`
    } else {
        vstd::arithmetic::div_mod::lemma_small_mod(1nat, n as nat);
        // `(t1 * a) * t2 == t1 * (t2 * a)`, which reduces to `t1` because
        // `t2 * a` reduces to 1; symmetrically for `t2`.
        assert(((t1 * a) * t2) % n == t1) by {
            vstd::arithmetic::mul::lemma_mul_is_associative(t1, a, t2);
            vstd::arithmetic::mul::lemma_mul_is_commutative(a, t2);
            vstd::arithmetic::div_mod::lemma_mul_mod_noop_right(t1, t2 * a, n);
            assert((t1 * ((t2 * a) % n)) % n == (t1 * 1) % n);
            vstd::arithmetic::div_mod::lemma_small_mod(t1 as nat, n as nat);
        }
        assert(((t2 * a) * t1) % n == t2) by {
            vstd::arithmetic::mul::lemma_mul_is_associative(t2, a, t1);
            vstd::arithmetic::mul::lemma_mul_is_commutative(a, t1);
            vstd::arithmetic::div_mod::lemma_mul_mod_noop_right(t2, t1 * a, n);
            assert((t2 * ((t1 * a) % n)) % n == (t2 * 1) % n);
            vstd::arithmetic::div_mod::lemma_small_mod(t2 as nat, n as nat);
        }
        assert((t1 * a) * t2 == (t2 * a) * t1) by (nonlinear_arith);
    }
}

/// Big-endian base-256 value of a byte string.
pub open spec fn be_bytes_value(s: Seq<u8>) -> int
    decreases s.len(),
{
    if s.len() == 0 {
        0
    } else {
        be_bytes_value(s.drop_last()) * 256 + s.last()
    }
}

/// A minimal big-endian encoding: non-empty, and with no redundant leading
/// zero byte.
pub open spec fn minimal_be(s: Seq<u8>) -> bool {
    s.len() >= 1 && (s.len() == 1 || s[0] != 0)
}

/// Byte values are nonnegative.
pub proof fn lemma_be_nonneg(s: Seq<u8>)
    ensures
        be_bytes_value(s) >= 0,
    decreases s.len(),
{
    if s.len() > 0 {
        lemma_be_nonneg(s.drop_last());
    }
}

/// A byte string of length `l` holds a value below `256^l`.
pub proof fn lemma_be_bound(s: Seq<u8>)
    ensures
        be_bytes_value(s) < pow(256, s.len()),
    decreases s.len(),
{
    if s.len() == 0 {
        assert(pow(256, 0) == 1) by {
            vstd::arithmetic::power::lemma_pow0(256);
        }
    } else {
        lemma_be_bound(s.drop_last());
        assert(pow(256, s.len()) == 256 * pow(256, (s.len() - 1) as nat)) by {
            reveal_with_fuel(pow, 2);
        }
    }
}

/// A string of zero bytes has value zero.
pub proof fn lemma_be_zeros(z: Seq<u8>)
    requires
        forall|i: int| 0 <= i < z.len() ==> z[i] == 0,
    ensures
        be_bytes_value(z) == 0,
    decreases z.len(),
{
    if z.len() > 0 {
        lemma_be_zeros(z.drop_last());
    }
}

/// Leading zero bytes do not change the value.
pub proof fn lemma_be_leading_zeros(z: Seq<u8>, s: Seq<u8>)
    requires
        forall|i: int| 0 <= i < z.len() ==> z[i] == 0,
    ensures
        be_bytes_value(z + s) == be_bytes_value(s),
    decreases s.len(),
{
    if s.len() == 0 {
        assert(z + s =~= z);
        lemma_be_zeros(z);
    } else {
        assert((z + s).drop_last() =~= z + s.drop_last());
        assert((z + s).last() == s.last());
        lemma_be_leading_zeros(z, s.drop_last());
    }
}

/// Two byte strings of one length with one value are the same string.
pub proof fn lemma_be_fixed_len_unique(s1: Seq<u8>, s2: Seq<u8>)
    requires
        s1.len() == s2.len(),
        be_bytes_value(s1) == be_bytes_value(s2),
    ensures
        s1 == s2,
    decreases s1.len(),
{
    if s1.len() == 0 {
        assert(s1 =~= s2);
    } else {
        let v = be_bytes_value(s1);
        lemma_be_nonneg(s1.drop_last());
        lemma_be_nonneg(s2.drop_last());
        vstd::arithmetic::div_mod::lemma_fundamental_div_mod_converse(
            v,
            256,
            be_bytes_value(s1.drop_last()),
            s1.last() as int,
        );
        vstd::arithmetic::div_mod::lemma_fundamental_div_mod_converse(
            v,
            256,
            be_bytes_value(s2.drop_last()),
            s2.last() as int,
        );
        lemma_be_fixed_len_unique(s1.drop_last(), s2.drop_last());
        assert forall|i: int| 0 <= i < s1.len() implies s1[i] == s2[i] by {
            if i < s1.len() - 1 {
                assert(s1[i] == s1.drop_last()[i]);
                assert(s2[i] == s2.drop_last()[i]);
            }
        }
        assert(s1 =~= s2);
    }
}

/// A minimal encoding of two or more bytes holds a value of at least
/// `256^(l-1)`.
pub proof fn lemma_minimal_be_lower(s: Seq<u8>)
    requires
        minimal_be(s),
        s.len() >= 2,
    ensures
        be_bytes_value(s) >= pow(256, (s.len() - 1) as nat),
    decreases s.len(),
{
    let dl = s.drop_last();
    lemma_be_nonneg(s);
    if s.len() == 2 {
        assert(be_bytes_value(dl) == be_bytes_value(dl.drop_last()) * 256 + dl.last());
        assert(dl.drop_last() =~= Seq::<u8>::empty());
        assert(dl.last() == s[0]);
        assert(be_bytes_value(dl) >= 1);
        assert(pow(256, 1) == 256) by {
            reveal_with_fuel(pow, 2);
        }
    } else {
        assert(dl[0] == s[0]);
        lemma_minimal_be_lower(dl);
        assert(pow(256, (s.len() - 1) as nat) == 256 * pow(256, (s.len() - 2) as nat)) by {
            reveal_with_fuel(pow, 2);
        }
    }
}

} // verus!
