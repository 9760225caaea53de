use ec_cryptosystems::affine_point::EcPointA;
use ec_cryptosystems::diffie_hellman::EphemeralSecret;
use ec_cryptosystems::diffie_hellman::PublicKey;
use ec_cryptosystems::directed_encryption::{dec, enc, Encryptor};
use ec_cryptosystems::hash;
use ec_cryptosystems::helpers::{check_affine_point_for_inf, inverse, mod_pow, take_by_module};
use ec_cryptosystems::projective_point::EcPointP;
use ec_cryptosystems::{EcCurve, EcError, EcInfo, Params, PreGeneratedParams};
use num_bigint::BigInt;

fn small_curve() -> EcCurve {
    EcCurve::new(Params {
        a: BigInt::from(11_u8),
        b: BigInt::from(7_u8),
        q: BigInt::from(13_u8),
    })
    .unwrap()
}

fn base_point() -> EcPointP {
    EcPointP::new(&BigInt::from(6), &BigInt::from(4), &BigInt::from(1))
}

#[test]
fn group_identity() {
    let curve = small_curve();
    let p = base_point();
    let inf = EcPointP::new(&BigInt::from(0), &BigInt::from(1), &BigInt::from(0));
    assert_eq!(curve.projective_point_add(&p, &inf), p);
    assert_eq!(curve.projective_point_add(&inf, &p), p);
}

#[test]
fn commutativity_and_associativity() {
    for (a, b, q) in [(11_u32, 7_u32, 13_u32), (5, 3, 31), (3, 7, 949)] {
        let curve = EcCurve::new(Params {
            a: BigInt::from(a),
            b: BigInt::from(b),
            q: BigInt::from(q),
        })
        .unwrap();
        let p = if q == 13 {
            base_point()
        } else if q == 31 {
            // y^2 = x^3 + 5x + 3 mod 31: x = 1 gives y^2 = 9, y = 3.
            EcPointP::new(&BigInt::from(1), &BigInt::from(3), &BigInt::from(1))
        } else {
            // y^2 = x^3 + 3x + 7 mod 949: x = 5, y = 145.
            EcPointP::new(&BigInt::from(5), &BigInt::from(145), &BigInt::from(1))
        };
        assert!(curve.check_projective_point(&p));
        let p2 = curve.projective_point_add(&p, &p);
        let p3 = curve.projective_point_add(&p2, &p);

        // commutativity
        let ab = curve.projective_point_add(&p2, &p3);
        let ba = curve.projective_point_add(&p3, &p2);
        assert_eq!(
            curve.transform_proj_point(&ab).unwrap(),
            curve.transform_proj_point(&ba).unwrap()
        );

        // associativity
        let left = curve.projective_point_add(&curve.projective_point_add(&p, &p2), &p3);
        let right = curve.projective_point_add(&p, &curve.projective_point_add(&p2, &p3));
        assert_eq!(
            curve.transform_proj_point(&left).unwrap(),
            curve.transform_proj_point(&right).unwrap()
        );
    }
}

#[test]
fn doubling_consistency() {
    let curve = small_curve();
    let p = base_point();
    let doubled = curve.projective_point_add(&p, &p);
    let multiplied = curve.projective_point_mul(&p, &BigInt::from(2));
    assert_eq!(
        curve.transform_proj_point(&doubled).unwrap(),
        curve.transform_proj_point(&multiplied).unwrap()
    );
}

#[test]
fn negation_gives_infinity() {
    let curve = small_curve();
    let a = EcPointA::new(&BigInt::from(6), &BigInt::from(4));
    let sum = curve.affine_point_add(&a, &a.negative()).unwrap();
    assert!(sum.is_inf());
}

#[test]
fn scalar_mul_linearity() {
    let curve = small_curve();
    let p = base_point();
    for (m, n) in [(1_u32, 2_u32), (2, 3), (4, 5), (3, 6)] {
        let lhs = curve.projective_point_mul(&p, &BigInt::from(m + n));
        let rhs = curve.projective_point_add(
            &curve.projective_point_mul(&p, &BigInt::from(m)),
            &curve.projective_point_mul(&p, &BigInt::from(n)),
        );
        assert_eq!(
            curve.transform_proj_point(&lhs).unwrap(),
            curve.transform_proj_point(&rhs).unwrap()
        );
    }
}

#[test]
fn scalar_mul_zero_is_identity() {
    let curve = small_curve();
    let p = base_point();
    assert!(curve.projective_point_mul(&p, &BigInt::from(0)).is_inf());
}

#[test]
fn mod_inverse_round_trip() {
    for (a, n) in [(7_u32, 40_u32), (5, 31), (12, 25), (1, 2)] {
        let t = inverse(&BigInt::from(a), &BigInt::from(n)).unwrap();
        assert_eq!((BigInt::from(a) * t) % BigInt::from(n), BigInt::from(1_u8));
    }
    assert!(inverse(&BigInt::from(2), &BigInt::from(4)).is_err());
    assert!(inverse(&BigInt::from(0), &BigInt::from(7)).is_err());
}

#[test]
fn normalization_idempotent() {
    let curve = small_curve();
    let p = base_point();
    let raw = curve.projective_point_add(&curve.projective_point_add(&p, &p), &p);
    let once = curve.transform_proj_point(&raw).unwrap();
    let twice = curve.transform_proj_point(&once).unwrap();
    assert_eq!(once, twice);
}

#[test]
fn discriminant_error_payload() {
    match EcCurve::new(Params {
        a: BigInt::from(1_u8),
        b: BigInt::from(1_u8),
        q: BigInt::from(31_u8),
    }) {
        Err(EcError::NonZeroDiscriminant(d)) => assert_eq!(d, BigInt::from(0_u8)),
        other => panic!("expected a singular-curve error, got {other:?}"),
    }
}

#[test]
fn invalid_modulus_is_rejected() {
    match EcCurve::new(Params {
        a: BigInt::from(1_u8),
        b: BigInt::from(1_u8),
        q: BigInt::from(0_u8),
    }) {
        Err(EcError::IncorrectParameters(_)) => {},
        other => panic!("expected a parameter error, got {other:?}"),
    }
}

#[test]
fn context_rejects_point_off_curve() {
    let r = EcInfo::new(
        Params {
            a: BigInt::from(11_u8),
            b: BigInt::from(7_u8),
            q: BigInt::from(13_u8),
        },
        &EcPointA::new(&BigInt::from(6), &BigInt::from(5)),
        BigInt::from(11_u8),
    );
    assert!(matches!(r, Err(EcError::IncorrectParameters(_))));
}

#[test]
fn no_inverse_error_kind() {
    match inverse(&BigInt::from(2), &BigInt::from(4)) {
        Err(EcError::ImpossibleToFindInverse(_)) => {},
        other => panic!("expected a missing-inverse error, got {other:?}"),
    }
}

#[test]
fn decrypt_with_unrelated_secret_fails() {
    let ec = EcInfo::from_pre_generated(PreGeneratedParams::P192).unwrap();
    let msg = [0x42_u8; 15];

    let alice_secret = EphemeralSecret::random(&ec);
    let bob_secret = EphemeralSecret::random(&ec);
    let shared = alice_secret
        .diffie_hellman(PublicKey::from(&bob_secret))
        .unwrap();

    let charlie_secret = EphemeralSecret::random(&ec);
    let dave_secret = EphemeralSecret::random(&ec);
    let unrelated = charlie_secret
        .diffie_hellman(PublicKey::from(&dave_secret))
        .unwrap();

    let ct = Encryptor::encrypt(&msg, &shared).unwrap();
    match Encryptor::decrypt(&ct, &unrelated) {
        Err(EcError::AuthenticationFailure) => {},
        other => panic!("expected an authentication failure, got {other:?}"),
    }
}

#[test]
fn aead_rejects_wrong_key_and_short_ciphertext() {
    let key = [0x11_u8; 32];
    let other_key = [0x22_u8; 32];
    let ct = enc(&key, b"fifteen bytes..");
    assert!(matches!(
        dec(&other_key, &ct),
        Err(EcError::AuthenticationFailure)
    ));
    assert!(matches!(
        dec(&key, &[1_u8, 2, 3]),
        Err(EcError::AuthenticationFailure)
    ));

    // A tampered ciphertext is rejected too.
    let mut tampered = ct.clone();
    let last = tampered.len() - 1;
    tampered[last] ^= 0x01;
    assert!(matches!(
        dec(&key, &tampered),
        Err(EcError::AuthenticationFailure)
    ));
}

#[test]
fn sha3_known_answer() {
    let digest = hash(b"abc");
    let expected: [u8; 32] = [
        0x3a, 0x98, 0x5d, 0xa7, 0x4f, 0xe2, 0x25, 0xb2, 0x04, 0x5c, 0x17, 0x2d, 0x6b, 0xd3, 0x90,
        0xbd, 0x85, 0x5f, 0x08, 0x6e, 0x3e, 0x9d, 0x52, 0x5b, 0x46, 0xbf, 0xe2, 0x45, 0x11, 0x43,
        0x15, 0x32,
    ];
    assert_eq!(digest.as_slice(), expected.as_slice());
}

#[test]
fn mod_pow_known_values() {
    assert_eq!(
        mod_pow(&BigInt::from(3), 5, &BigInt::from(7)),
        BigInt::from(5_u8)
    );
    assert_eq!(
        mod_pow(&BigInt::from(2), 10, &BigInt::from(1000)),
        BigInt::from(24_u32)
    );
    assert_eq!(
        mod_pow(&BigInt::from(-2), 3, &BigInt::from(7)),
        BigInt::from(6_u8)
    );
}

#[test]
fn reduction_of_negative_values() {
    assert_eq!(
        take_by_module(&BigInt::from(-15), &BigInt::from(7)),
        BigInt::from(6_u8)
    );
    assert_eq!(
        take_by_module(&BigInt::from(20), &BigInt::from(7)),
        BigInt::from(6_u8)
    );
}

#[test]
fn membership_checks() {
    let curve = small_curve();
    assert!(curve.check_affine_point(&EcPointA::new(&BigInt::from(6), &BigInt::from(4))));
    assert!(!curve.check_affine_point(&EcPointA::new(&BigInt::from(6), &BigInt::from(5))));
    assert!(curve.check_projective_point(&EcPointP::new(
        &BigInt::from(6),
        &BigInt::from(4),
        &BigInt::from(1)
    )));
    // The same point rescaled by 2 still satisfies the projective equation.
    assert!(curve.check_projective_point(&EcPointP::new(
        &BigInt::from(12),
        &BigInt::from(8),
        &BigInt::from(2)
    )));
    assert!(!check_affine_point_for_inf(&BigInt::from(0), &BigInt::from(0)));
}

#[test]
fn preset_base_point_is_on_curve() {
    let ec = EcInfo::from_pre_generated(PreGeneratedParams::P192).unwrap();
    let curve = ec.get_curve();
    assert!(curve.check_projective_point(&ec.get_base_point()));
    assert!(ec.get_order() > BigInt::from(2_u8));
}
