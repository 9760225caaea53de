//! Hybrid (KEM+DEM) encryption: a fresh symmetric key encrypts the message,
//! and a key derived from the shared secret's affine `x` coordinate wraps
//! that symmetric key. The AEAD cipher is AES-256-GCM with a 12-byte nonce
//! prefixed to each ciphertext.

use vstd::arithmetic::power::pow;
use vstd::prelude::*;

use crate::bigint::big_value;
use crate::diffie_hellman::SharedSecret;
use crate::model::{
    be_bytes_value, lemma_be_bound, lemma_be_fixed_len_unique, lemma_be_leading_zeros,
    lemma_coprime_one, lemma_minimal_be_lower,
};
use crate::EcError;
use aes_gcm::aead::{Aead, OsRng};
use aes_gcm::{AeadCore, Aes256Gcm, Key, KeyInit, Nonce};
use num_bigint::BigInt;

verus! {

/// Symmetric keys are 256 bits.
pub const BYTE_KEY_LEN: usize = 32;

/// Each ciphertext starts with a nonce of this many bytes.
pub const NONCE_LEN: usize = 12;

/// What AES-256-GCM decryption (nonce split off, then authenticated
/// decryption) returns for a key and a ciphertext; the result depends on the
/// two alone.
pub uninterp spec fn gcm_open(key: Seq<u8>, ct: Seq<u8>) -> Option<Seq<u8>>;

/// Relies on `aes_gcm::Aes256Gcm` encryption with a fresh `OsRng` nonce,
/// prefixed to the ciphertext. Whatever nonce was drawn, opening the result
/// with the same key gives back the message; the tag adds 16 bytes.
#[verifier::external_body]
fn aes_gcm_seal(key: &[u8], msg: &[u8]) -> (r: Vec<u8>)
    requires
        key@.len() == 32,
        msg@.len() <= 0x1_0000_0000,
    ensures
        r@.len() == msg@.len() + 28,
        gcm_open(key@, r@) == Some(msg@),
{
    let key = Key::<Aes256Gcm>::from_slice(key);
    let nonce = Aes256Gcm::generate_nonce(&mut OsRng);
    let cipher = Aes256Gcm::new(key);
    let ciphertext = cipher.encrypt(&nonce, msg).expect("failed to encrypt");
    let mut encrypted_data: Vec<u8> = nonce.to_vec();
    encrypted_data.extend_from_slice(&ciphertext);
    encrypted_data
}

/// Relies on `aes_gcm::Aes256Gcm` decryption after splitting the 12-byte
/// nonce prefix: authenticated decryption of the rest, `None` on any
/// authentication failure.
#[verifier::external_body]
fn aes_gcm_unseal(key: &[u8], ct: &[u8]) -> (r: Option<Vec<u8>>)
    requires
        key@.len() == 32,
        ct@.len() >= 12,
    ensures
        r is Some <==> gcm_open(key@, ct@) is Some,
        r matches Some(p) ==> gcm_open(key@, ct@) == Some(p@),
{
    let key = Key::<Aes256Gcm>::from_slice(key);
    let (nonce_arr, ciphered_data) = ct.split_at(NONCE_LEN);
    let nonce = Nonce::from_slice(nonce_arr);
    let cipher = Aes256Gcm::new(key);
    cipher.decrypt(nonce, ciphered_data).ok()
}

/// AEAD encryption under a 256-bit key: a self-contained, nonce-prefixed
/// ciphertext that opens back to the message under the same key.
pub fn enc(key: &[u8], msg: &[u8]) -> (r: Vec<u8>)
    requires
        key@.len() == 32,
        msg@.len() <= 0x1_0000_0000,
    ensures
        r@.len() == msg@.len() + 28,
        gcm_open(key@, r@) == Some(msg@),
{
    aes_gcm_seal(key, msg)
}

/// AEAD decryption under a 256-bit key: succeeds exactly when the cipher
/// authenticates the ciphertext, and any failure (a short ciphertext
/// included) is an authentication failure, never partial plaintext.
pub fn dec(key: &[u8], ct: &[u8]) -> (r: Result<Vec<u8>, EcError>)
    requires
        key@.len() == 32,
    ensures
        ct@.len() >= 12 ==> (r is Ok <==> gcm_open(key@, ct@) is Some),
        r matches Ok(p) ==> ct@.len() >= 12 && gcm_open(key@, ct@) == Some(p@),
        ct@.len() < 12 ==> r is Err,
        r matches Err(e) ==> e is AuthenticationFailure,
{
    if ct.len() < NONCE_LEN {
        return Err(EcError::AuthenticationFailure);
    }
    match aes_gcm_unseal(key, ct) {
        Some(p) => Ok(p),
        None => Err(EcError::AuthenticationFailure),
    }
}

/// Relies on `rand::random` for 32 bytes from the thread-local CSPRNG.
/// Nothing more is promised of a random key.
#[verifier::external_body]
fn random_key_bytes() -> (r: Vec<u8>)
    ensures
        r@.len() == 32,
{
    rand::random::<[u8; 32]>().to_vec()
}

/// `k` is the key-wrapping key of an affine `x` value: the 32-byte string
/// holding `x` big-endian, left-padded with zero bytes.
pub open spec fn is_wrap_key(x: int, k: Seq<u8>) -> bool {
    &&& k.len() == 32
    &&& be_bytes_value(k) == x
    &&& 0 <= x
}

/// A wrap key determines its `x` value and vice versa.
pub proof fn lemma_wrap_key_unique(x: int, k1: Seq<u8>, k2: Seq<u8>)
    requires
        is_wrap_key(x, k1),
        is_wrap_key(x, k2),
    ensures
        k1 == k2,
{
    lemma_be_fixed_len_unique(k1, k2);
}

/// Derives the key-wrapping key from an affine `x` coordinate: its minimal
/// big-endian bytes, left-padded with zero bytes to the symmetric key
/// length. Fails exactly when `x` does not fit the key length.
fn derive_wrap_key(x: &BigInt) -> (r: Result<Vec<u8>, EcError>)
    requires
        big_value(*x) >= 0,
    ensures
        r is Ok <==> big_value(*x) < pow(256, 32),
        r matches Ok(k) ==> is_wrap_key(big_value(*x), k@),
        r matches Err(e) ==> e is IncorrectParameters,
{
    let mut xb = crate::bigint::big_to_bytes_be(x);
    if xb.len() > BYTE_KEY_LEN {
        proof {
            lemma_minimal_be_lower(xb@);
            vstd::arithmetic::power::lemma_pow_increases(256, 32, (xb@.len() - 1) as nat);
        }
        return Err(EcError::IncorrectParameters("coordinate does not fit the key length".to_owned()));
    }
    proof {
        lemma_be_bound(xb@);
        vstd::arithmetic::power::lemma_pow_increases(256, xb@.len(), 32);
    }
    let pad_len = BYTE_KEY_LEN - xb.len();
    let mut key: Vec<u8> = Vec::new();
    while key.len() < pad_len
        invariant
            pad_len <= 32,
            key.len() <= pad_len,
            forall|i: int| 0 <= i < key.len() ==> key@[i] == 0,
        decreases pad_len - key.len(),
    {
        key.push(0u8);
    }
    proof {
        lemma_be_leading_zeros(key@, xb@);
    }
    let ghost pad_view = key@;
    let ghost xb_view = xb@;
    key.append(&mut xb);
    proof {
        assert(key@ == pad_view + xb_view);
    }
    Ok(key)
}

/// The two ciphertexts of a hybrid encryption: the message under a fresh
/// symmetric key, and that key under the wrap key of the shared secret.
#[derive(Debug)]
pub struct EncryptedMessage {
    pub(crate) ct_m: Vec<u8>,
    pub(crate) ct_k: Vec<u8>,
}

/// Spec-level view of an encrypted message: the two ciphertexts.
pub struct EncryptedMessageV {
    pub ct_m: Seq<u8>,
    pub ct_k: Seq<u8>,
}

impl View for EncryptedMessage {
    type V = EncryptedMessageV;

    open(crate) spec fn view(&self) -> EncryptedMessageV {
        EncryptedMessageV { ct_m: self.ct_m@, ct_k: self.ct_k@ }
    }
}

/// A valid hybrid ciphertext chain for affine coordinate `x` and plaintext
/// `m`: the wrap key of `x` opens the key ciphertext to a 32-byte key that
/// opens the message ciphertext to `m`.
pub open spec fn hybrid_chain(x: int, em: EncryptedMessageV, m: Seq<u8>) -> bool {
    exists|wk: Seq<u8>, kb: Seq<u8>|
        #![trigger is_wrap_key(x, wk), gcm_open(kb, em.ct_m)]
        {
            &&& em.ct_k.len() >= 12
            &&& em.ct_m.len() >= 12
            &&& is_wrap_key(x, wk)
            &&& gcm_open(wk, em.ct_k) == Some(kb)
            &&& kb.len() == 32
            &&& gcm_open(kb, em.ct_m) == Some(m)
        }
}

/// The hybrid encryptor/decryptor.
pub struct Encryptor {}

impl Encryptor {
    /// Hybrid encryption: draws a fresh 256-bit key for the message, wraps
    /// it under the key derived from the shared secret's affine `x`, and
    /// returns the two self-contained ciphertexts. Fails exactly when the
    /// coordinate does not fit the key length.
    pub fn encrypt(msg: &[u8], shared_secret: &SharedSecret) -> (r: Result<
        EncryptedMessage,
        EcError,
    >)
        requires
            msg@.len() <= 0x1_0000_0000,
        ensures
            r is Ok <==> shared_secret@.point.x < pow(256, 32),
            r matches Ok(em) ==> hybrid_chain(shared_secret@.point.x, em@, msg@),
            r matches Err(e) ==> e is IncorrectParameters,
    {
        proof {
            use_type_invariant(&*shared_secret);
            use_type_invariant(&shared_secret.ec_info);
        }
        let aff_x = Self::shared_affine_x(shared_secret);
        let wrap_key = match derive_wrap_key(&aff_x) {
            Ok(k) => k,
            Err(e) => {
                return Err(e);
            },
        };
        let key_bytes = random_key_bytes();
        let ct_m = enc(key_bytes.as_slice(), msg);
        let ct_k = enc(wrap_key.as_slice(), key_bytes.as_slice());
        let em = EncryptedMessage { ct_m, ct_k };
        proof {
            assert(is_wrap_key(shared_secret@.point.x, wrap_key@));
            assert(gcm_open(key_bytes@, em@.ct_m) == Some(msg@));
            assert(hybrid_chain(shared_secret@.point.x, em@, msg@));
        }
        Ok(em)
    }

    /// Hybrid decryption: re-derives the wrap key, unwraps the symmetric
    /// key, and opens the message. Succeeds exactly when a valid ciphertext
    /// chain exists for the shared secret's coordinate; any authentication
    /// failure at either layer is surfaced as such, never as partial
    /// plaintext.
    pub fn decrypt(enc_msg: &EncryptedMessage, shared_secret: &SharedSecret) -> (r: Result<
        Vec<u8>,
        EcError,
    >)
        ensures
            r is Ok <==> exists|m: Seq<u8>|
                #[trigger] hybrid_chain(shared_secret@.point.x, enc_msg@, m),
            r matches Ok(p) ==> hybrid_chain(shared_secret@.point.x, enc_msg@, p@),
            r matches Err(e) ==> (e is AuthenticationFailure || e is IncorrectParameters),
    {
        proof {
            use_type_invariant(&*shared_secret);
            use_type_invariant(&shared_secret.ec_info);
        }
        let ghost x = shared_secret@.point.x;
        let aff_x = Self::shared_affine_x(shared_secret);
        let wrap_key = match derive_wrap_key(&aff_x) {
            Ok(k) => k,
            Err(e) => {
                proof {
                    assert forall|m: Seq<u8>| !hybrid_chain(x, enc_msg@, m) by {
                        if hybrid_chain(x, enc_msg@, m) {
                            let (wk, kb) = choose|wk: Seq<u8>, kb: Seq<u8>|
                                is_wrap_key(x, wk) && gcm_open(wk, enc_msg@.ct_k) == Some(kb)
                                    && kb.len() == 32 && gcm_open(kb, enc_msg@.ct_m) == Some(m);
                            lemma_be_bound(wk);
                        }
                    }
                }
                return Err(e);
            },
        };
        let pt_k = match dec(wrap_key.as_slice(), enc_msg.ct_k.as_slice()) {
            Ok(v) => v,
            Err(e) => {
                proof {
                    Self::lemma_no_chain_when_unwrap_fails(x, wrap_key@, enc_msg@);
                }
                return Err(e);
            },
        };
        if pt_k.len() != BYTE_KEY_LEN {
            proof {
                Self::lemma_no_chain_when_key_malformed(x, wrap_key@, pt_k@, enc_msg@);
            }
            return Err(EcError::AuthenticationFailure);
        }
        match dec(pt_k.as_slice(), enc_msg.ct_m.as_slice()) {
            Ok(p) => {
                proof {
                    assert(is_wrap_key(x, wrap_key@));
                    assert(gcm_open(pt_k@, enc_msg@.ct_m) == Some(p@));
                    assert(hybrid_chain(x, enc_msg@, p@));
                }
                Ok(p)
            },
            Err(e) => {
                proof {
                    Self::lemma_no_chain_when_open_fails(x, wrap_key@, pt_k@, enc_msg@);
                }
                Err(e)
            },
        }
    }

    /// The affine `x` coordinate of a shared secret's (normalized) point.
    fn shared_affine_x(shared_secret: &SharedSecret) -> (r: BigInt)
        ensures
            big_value(r) == shared_secret@.point.x,
            big_value(r) >= 0,
    {
        proof {
            use_type_invariant(&*shared_secret);
            use_type_invariant(&shared_secret.ec_info);
            lemma_coprime_one(shared_secret@.info.curve.q);
        }
        let aff = match shared_secret.shared_point.to_affine(&shared_secret.ec_info.ecurve) {
            Ok(v) => v,
            Err(_) => unreached(),
        };
        proof {
            let q = shared_secret@.info.curve.q;
            vstd::arithmetic::div_mod::lemma_small_mod(shared_secret@.point.x as nat, q as nat);
            vstd::arithmetic::div_mod::lemma_small_mod(aff@.x as nat, q as nat);
        }
        aff.get_x()
    }

    /// No chain exists when the key ciphertext does not open under the wrap
    /// key.
    proof fn lemma_no_chain_when_unwrap_fails(x: int, wk0: Seq<u8>, em: EncryptedMessageV)
        requires
            is_wrap_key(x, wk0),
            em.ct_k.len() < 12 || gcm_open(wk0, em.ct_k) is None,
        ensures
            forall|m: Seq<u8>| !(#[trigger] hybrid_chain(x, em, m)),
    {
        assert forall|m: Seq<u8>| !(#[trigger] hybrid_chain(x, em, m)) by {
            if hybrid_chain(x, em, m) {
                let (wk, kb) = choose|wk: Seq<u8>, kb: Seq<u8>|
                    is_wrap_key(x, wk) && gcm_open(wk, em.ct_k) == Some(kb) && kb.len() == 32
                        && gcm_open(kb, em.ct_m) == Some(m);
                lemma_wrap_key_unique(x, wk, wk0);
            }
        }
    }

    /// No chain exists when the unwrapped key has the wrong length.
    proof fn lemma_no_chain_when_key_malformed(
        x: int,
        wk0: Seq<u8>,
        kb0: Seq<u8>,
        em: EncryptedMessageV,
    )
        requires
            is_wrap_key(x, wk0),
            gcm_open(wk0, em.ct_k) == Some(kb0),
            kb0.len() != 32,
        ensures
            forall|m: Seq<u8>| !(#[trigger] hybrid_chain(x, em, m)),
    {
        assert forall|m: Seq<u8>| !(#[trigger] hybrid_chain(x, em, m)) by {
            if hybrid_chain(x, em, m) {
                let (wk, kb) = choose|wk: Seq<u8>, kb: Seq<u8>|
                    is_wrap_key(x, wk) && gcm_open(wk, em.ct_k) == Some(kb) && kb.len() == 32
                        && gcm_open(kb, em.ct_m) == Some(m);
                lemma_wrap_key_unique(x, wk, wk0);
            }
        }
    }

    /// No chain exists when the message ciphertext does not open under the
    /// unwrapped key.
    proof fn lemma_no_chain_when_open_fails(
        x: int,
        wk0: Seq<u8>,
        kb0: Seq<u8>,
        em: EncryptedMessageV,
    )
        requires
            is_wrap_key(x, wk0),
            em.ct_k.len() >= 12,
            gcm_open(wk0, em.ct_k) == Some(kb0),
            em.ct_m.len() < 12 || gcm_open(kb0, em.ct_m) is None,
        ensures
            forall|m: Seq<u8>| !(#[trigger] hybrid_chain(x, em, m)),
    {
        assert forall|m: Seq<u8>| !(#[trigger] hybrid_chain(x, em, m)) by {
            if hybrid_chain(x, em, m) {
                let (wk, kb) = choose|wk: Seq<u8>, kb: Seq<u8>|
                    is_wrap_key(x, wk) && gcm_open(wk, em.ct_k) == Some(kb) && kb.len() == 32
                        && gcm_open(kb, em.ct_m) == Some(m);
                lemma_wrap_key_unique(x, wk, wk0);
            }
        }
    }
}

/// Encrypt/decrypt round trip: a ciphertext produced for one shared
/// coordinate decrypts, under any shared secret with the same coordinate, to
/// exactly the original message.
pub proof fn lemma_hybrid_roundtrip(x: int, em: EncryptedMessageV, m1: Seq<u8>, m2: Seq<u8>)
    requires
        hybrid_chain(x, em, m1),
        hybrid_chain(x, em, m2),
    ensures
        m1 == m2,
{
    let (wk1, kb1) = choose|wk: Seq<u8>, kb: Seq<u8>|
        is_wrap_key(x, wk) && gcm_open(wk, em.ct_k) == Some(kb) && kb.len() == 32 && gcm_open(
            kb,
            em.ct_m,
        ) == Some(m1);
    let (wk2, kb2) = choose|wk: Seq<u8>, kb: Seq<u8>|
        is_wrap_key(x, wk) && gcm_open(wk, em.ct_k) == Some(kb) && kb.len() == 32 && gcm_open(
            kb,
            em.ct_m,
        ) == Some(m2);
    lemma_wrap_key_unique(x, wk1, wk2);
}

} // verus!
