//! ECDSA-style signatures: randomized-nonce signing and verification under a
//! curve context.

use vstd::prelude::*;

use crate::bigint::{
    big_add, big_eq, big_from_bytes_be, big_from_u64, big_mul, big_to_bytes_be, big_value,
};
use crate::diffie_hellman::EphemeralSecret;
use crate::diffie_hellman::PublicKey;
use crate::helpers::{inverse, take_by_module};
use crate::model::{
    be_bytes_value, coprime, is_affine_of, minimal_be, p_add, p_mul, AffV, InfoV, ProjV,
};
use crate::{hash, sha3_256_of, EcError};

verus! {

/// The digest of a message, read as a nonnegative big-endian integer.
pub open spec fn digest_value(m: Seq<u8>) -> int {
    be_bytes_value(sha3_256_of(m))
}

/// `t` is the inverse of `a` modulo `n`, reduced into `[0, n)`.
pub open spec fn is_mod_inverse(t: int, a: int, n: int) -> bool {
    &&& 0 <= t < n
    &&& (t * a) % n == 1int % n
}

/// The nonce point `k * basePoint` of a context.
pub open spec fn nonce_point(info: InfoV, k: int) -> ProjV {
    p_mul(info.curve, info.bp, k as nat)
}

/// Whether the nonce point can be taken to affine form (it is at infinity,
/// or its `Z` is invertible).
pub open spec fn nonce_point_convertible(info: InfoV, k: int) -> bool {
    ||| nonce_point(info, k).z % info.curve.q == 0
    ||| coprime(nonce_point(info, k).z, info.curve.q)
}

/// The nonce is rejected: the affine `x` of its point vanishes modulo `n`.
pub open spec fn nonce_rejected(info: InfoV, k: int) -> bool {
    exists|pt: AffV|
        #[trigger] is_affine_of(info.curve, nonce_point(info, k), pt) && pt.x % info.n == 0
}

/// `(rr, ss)` is the signature that nonce `k` produces for digest `dig`
/// under private scalar `d`: `rr` is the affine `x` of `k * G` modulo `n`
/// (nonzero), and `ss == k^-1 * (dig + d * rr) mod n`.
pub open spec fn signature_values(
    info: InfoV,
    d: int,
    dig: int,
    k: int,
    rr: int,
    ss: int,
) -> bool {
    exists|pt: AffV|
        {
            &&& #[trigger] is_affine_of(info.curve, nonce_point(info, k), pt)
            &&& rr == pt.x % info.n
            &&& rr != 0
            &&& exists|ki: int|
                #[trigger] is_mod_inverse(ki, k, info.n) && ss == (ki * (dig + d * rr)) % info.n
        }
}

/// The combined point `u1 * G + u2 * Q` of a verification run performed
/// with `si` as the inverse of `s`.
pub open spec fn verify_point(info: InfoV, pk_point: ProjV, dig: int, rr: int, si: int) -> ProjV {
    let u1 = (si * dig) % info.n;
    let u2 = (si * rr) % info.n;
    p_add(
        info.curve,
        p_mul(info.curve, info.bp, u1 as nat),
        p_mul(info.curve, pk_point, u2 as nat),
    )
}

/// An accepting verification run with inverse witness `si`: the combined
/// point can be taken to affine form, and its affine `x` equals `rr` modulo
/// `n`.
pub open spec fn verify_run(
    info: InfoV,
    pk_point: ProjV,
    dig: int,
    rr: int,
    ss: int,
    si: int,
) -> bool {
    &&& is_mod_inverse(si, ss, info.n)
    &&& ({
        let lhs = verify_point(info, pk_point, dig, rr, si);
        &&& (lhs.z % info.curve.q == 0 || coprime(lhs.z, info.curve.q))
        &&& exists|pt: AffV|
            #[trigger] is_affine_of(info.curve, lhs, pt) && pt.x % info.n == rr
    })
}

/// Verification accepts `(rr, ss)` for digest `dig` under a public key
/// point: `ss` has an inverse modulo `n` whose run reaches an affine point
/// with `x` equal to `rr` modulo `n`. (The run is the same for every choice
/// of inverse, since the inverse is unique.)
pub open spec fn verify_accepting(
    info: InfoV,
    pk_point: ProjV,
    dig: int,
    rr: int,
    ss: int,
) -> bool {
    exists|si: int| #[trigger] verify_run(info, pk_point, dig, rr, ss, si)
}

/// Spec-level view of a signature: the two byte strings.
pub struct SignatureV {
    pub r: Seq<u8>,
    pub s: Seq<u8>,
}

/// A signature: the pair `(r, s)`, each a minimal big-endian unsigned byte
/// string of an integer in `[0, n)`.
#[derive(Debug)]
pub struct Signature {
    pub(crate) r: Vec<u8>,
    pub(crate) s: Vec<u8>,
}

impl View for Signature {
    type V = SignatureV;

    open(crate) spec fn view(&self) -> SignatureV {
        SignatureV { r: self.r@, s: self.s@ }
    }
}

/// The signing half of the scheme.
pub struct Signer {}

/// The verifying half of the scheme.
pub struct Verifier {}

impl Signer {
    /// One deterministic signing attempt with a caller-supplied nonce:
    /// `Ok(None)` exactly rejects a nonce whose point has a vanishing affine
    /// `x` modulo `n`; a nonce point that cannot be taken to affine form, or
    /// a nonce not invertible modulo `n`, surfaces the failed inverse.
    pub fn sign_with_nonce(m: &[u8], priv_key: &EphemeralSecret, nonce: &EphemeralSecret) -> (res:
        Result<Option<Signature>, EcError>)
        requires
            nonce@.info == priv_key@.info,
        ensures
            res matches Ok(Some(sig)) ==> ({
                &&& signature_values(
                    priv_key@.info,
                    priv_key@.k,
                    digest_value(m@),
                    nonce@.k,
                    be_bytes_value(sig@.r),
                    be_bytes_value(sig@.s),
                )
                &&& minimal_be(sig@.r)
                &&& minimal_be(sig@.s)
                &&& 0 <= be_bytes_value(sig@.r) < priv_key@.info.n
                &&& 0 <= be_bytes_value(sig@.s) < priv_key@.info.n
            }),
            res matches Ok(None) <==> (nonce_point_convertible(priv_key@.info, nonce@.k)
                && nonce_rejected(priv_key@.info, nonce@.k)),
            res is Err <==> (!nonce_point_convertible(priv_key@.info, nonce@.k) || (
            !nonce_rejected(priv_key@.info, nonce@.k) && !coprime(nonce@.k, priv_key@.info.n))),
            res matches Err(e) ==> e is ImpossibleToFindInverse,
    {
        proof {
            use_type_invariant(&*priv_key);
            use_type_invariant(&*nonce);
        }
        let info = &priv_key.ec_info;
        let digest_bytes = hash(m);
        let digest_num = big_from_bytes_be(digest_bytes.as_slice());
        let pub_point = info.ecurve.projective_point_mul(&info.bp, &nonce.k);
        let k_p = match pub_point.to_affine(&info.ecurve) {
            Ok(v) => v,
            Err(e) => {
                return Err(e);
            },
        };
        let r_num = take_by_module(&k_p.get_x(), &info.n);
        let zero = big_from_u64(0);
        proof {
            vstd::arithmetic::div_mod::lemma_small_mod(0nat, priv_key@.info.n as nat);
        }
        if big_eq(&r_num, &zero) {
            proof {
                assert(is_affine_of(priv_key@.info.curve, nonce_point(priv_key@.info, nonce@.k), k_p@));
            }
            return Ok(None);
        }
        proof {
            // The affine form of the nonce point is unique, and this one has
            // a nonzero `r`, so the nonce is not rejected.
            let infov = priv_key@.info;
            let k = nonce@.k;
            if nonce_rejected(infov, k) {
                let pt = choose|pt: AffV|
                    #[trigger] is_affine_of(infov.curve, nonce_point(infov, k), pt) && pt.x
                        % infov.n == 0;
                crate::model::lemma_affine_unique(infov.curve, nonce_point(infov, k), pt, k_p@);
            }
        }
        let k_inv = match inverse(&nonce.k, &info.n) {
            Ok(v) => v,
            Err(e) => {
                return Err(e);
            },
        };
        let s_num = take_by_module(
            &big_mul(&k_inv, &big_add(&digest_num, &big_mul(&priv_key.k, &r_num))),
            &info.n,
        );
        let sig = Signature { r: big_to_bytes_be(&r_num), s: big_to_bytes_be(&s_num) };
        proof {
            assert(is_affine_of(priv_key@.info.curve, nonce_point(priv_key@.info, nonce@.k), k_p@));
            assert(is_mod_inverse(big_value(k_inv), nonce@.k, priv_key@.info.n));
        }
        Ok(Some(sig))
    }

    /// Signs a message: hashes it, draws fresh one-time nonces until one
    /// yields a nonzero `r`, and returns the minimal big-endian encodings of
    /// `(r, s)`. A nonce point that cannot be taken to affine form, or a
    /// nonce not invertible modulo `n`, surfaces the failed inverse; a long
    /// run of rejected nonces is reported as failed randomness.
    pub fn sign(m: &[u8], priv_key: &EphemeralSecret) -> (res: Result<Signature, EcError>)
        ensures
            res matches Ok(sig) ==> ({
                &&& exists|k: int|
                    2 <= k <= priv_key@.info.n - 1 && #[trigger] signature_values(
                        priv_key@.info,
                        priv_key@.k,
                        digest_value(m@),
                        k,
                        be_bytes_value(sig@.r),
                        be_bytes_value(sig@.s),
                    )
                &&& minimal_be(sig@.r)
                &&& minimal_be(sig@.s)
                &&& 0 <= be_bytes_value(sig@.r) < priv_key@.info.n
                &&& 0 <= be_bytes_value(sig@.s) < priv_key@.info.n
            }),
            res matches Err(e) ==> (e is ImpossibleToFindInverse || e is RandomnessUnavailable),
    {
        let mut attempt: u64 = 0;
        while attempt < 64
            invariant
                attempt <= 64,
            decreases 64 - attempt,
        {
            let nonce = EphemeralSecret::random(&priv_key.ec_info);
            match Self::sign_with_nonce(m, priv_key, &nonce) {
                Ok(Some(sig)) => {
                    return Ok(sig);
                },
                Ok(None) => {},
                Err(e) => {
                    return Err(e);
                },
            }
            attempt = attempt + 1;
        }
        Err(EcError::RandomnessUnavailable)
    }
}

impl Verifier {
    /// Verifies a signature: recomputes `u1 * G + u2 * Q` from the digest
    /// and the decoded `(r, s)`, and accepts exactly when `s` is invertible
    /// modulo `n`, the combined point has an affine form, and that form's
    /// `x` equals `r` modulo `n`. A non-invertible `s` or a point that
    /// cannot be taken to affine form makes verification fail, not error
    /// out.
    pub fn verify(m: &[u8], sign: &Signature, pub_key: &PublicKey) -> (res: bool)
        ensures
            res == verify_accepting(
                pub_key@.info,
                pub_key@.point,
                digest_value(m@),
                be_bytes_value(sign@.r),
                be_bytes_value(sign@.s),
            ),
    {
        proof {
            use_type_invariant(&pub_key.ec_info);
        }
        let ghost infov = pub_key@.info;
        let ghost dig = digest_value(m@);
        let ghost rr = be_bytes_value(sign@.r);
        let ghost ss = be_bytes_value(sign@.s);
        let info = &pub_key.ec_info;
        let digest_bytes = hash(m);
        let digest_num = big_from_bytes_be(digest_bytes.as_slice());
        let r_num = big_from_bytes_be(sign.r.as_slice());
        let s_num = big_from_bytes_be(sign.s.as_slice());
        let s_inv = match inverse(&s_num, &info.n) {
            Ok(v) => v,
            Err(_) => {
                proof {
                    // Any inverse witness would contradict the failed
                    // inverse, which shows `s` is not coprime to `n`.
                    if verify_accepting(infov, pub_key@.point, dig, rr, ss) {
                        let si = choose|si: int|
                            #[trigger] verify_run(infov, pub_key@.point, dig, rr, ss, si);
                        crate::model::lemma_inverse_implies_coprime(si, ss, infov.n);
                    }
                }
                return false;
            },
        };
        let u1 = take_by_module(&big_mul(&s_inv, &digest_num), &info.n);
        let u2 = take_by_module(&big_mul(&s_inv, &r_num), &info.n);
        let part1 = info.ecurve.projective_point_mul(&info.bp, &u1);
        let part2 = info.ecurve.projective_point_mul(&pub_key.shared_point, &u2);
        let lhs = info.ecurve.projective_point_add(&part1, &part2);
        proof {
            assert(is_mod_inverse(big_value(s_inv), ss, infov.n));
            assert(lhs@ == verify_point(infov, pub_key@.point, dig, rr, big_value(s_inv)));
        }
        let aff = match lhs.to_affine(&info.ecurve) {
            Ok(v) => v,
            Err(_) => {
                proof {
                    // Any other inverse witness equals this one, so every
                    // run reaches this very point, which has no affine form.
                    if verify_accepting(infov, pub_key@.point, dig, rr, ss) {
                        let si = choose|si: int|
                            #[trigger] verify_run(infov, pub_key@.point, dig, rr, ss, si);
                        crate::model::lemma_mod_inverse_unique(
                            si,
                            big_value(s_inv),
                            ss,
                            infov.n,
                        );
                    }
                }
                return false;
            },
        };
        let rx = take_by_module(&aff.get_x(), &info.n);
        let accept = big_eq(&rx, &r_num);
        proof {
            let lhsv = verify_point(infov, pub_key@.point, dig, rr, big_value(s_inv));
            assert(is_affine_of(infov.curve, lhsv, aff@));
            if accept {
                assert(verify_run(infov, pub_key@.point, dig, rr, ss, big_value(s_inv)));
            } else {
                // The inverse and the affine form are unique, so an
                // accepting run would force this very comparison to succeed.
                if verify_accepting(infov, pub_key@.point, dig, rr, ss) {
                    let si = choose|si: int|
                        #[trigger] verify_run(infov, pub_key@.point, dig, rr, ss, si);
                    crate::model::lemma_mod_inverse_unique(si, big_value(s_inv), ss, infov.n);
                    let pt = choose|pt: AffV|
                        #[trigger] is_affine_of(infov.curve, lhsv, pt) && pt.x % infov.n == rr;
                    crate::model::lemma_affine_unique(infov.curve, lhsv, pt, aff@);
                }
            }
        }
        accept
    }
}

} // verus!
