use curve25519_dalek::constants::RISTRETTO_BASEPOINT_POINT;
use merlin::Transcript;
use zkschnorr::transcript::{append_point, challenge_scalar, zkschnorr_domain_sep};
use zkschnorr::{
    BatchVerification, BatchVerifier, CompressedPoint, Scalar, Signature, SingleVerifier,
    VerificationKey, ZkSchnorrError,
};

// The group order minus one, little-endian: the scalar -1.
const MINUS_ONE: [u8; 32] = [
    0xec, 0xd3, 0xf5, 0x5c, 0x1a, 0x63, 0x12, 0x58, 0xd6, 0x9c, 0xf7, 0xa2, 0xde, 0xf9, 0xde, 0x14,
    0, 0, 0, 0, 0, 0, 0, 0, 0, 0, 0, 0, 0, 0, 0, 0x10,
];

// The group order itself, little-endian.
const ORDER: [u8; 32] = [
    0xed, 0xd3, 0xf5, 0x5c, 0x1a, 0x63, 0x12, 0x58, 0xd6, 0x9c, 0xf7, 0xa2, 0xde, 0xf9, 0xde, 0x14,
    0, 0, 0, 0, 0, 0, 0, 0, 0, 0, 0, 0, 0, 0, 0, 0x10,
];

fn dalek(n: u64) -> curve25519_dalek::scalar::Scalar {
    curve25519_dalek::scalar::Scalar::from(n)
}

fn base_multiple(n: u64) -> [u8; 32] {
    (dalek(n) * RISTRETTO_BASEPOINT_POINT).compress().to_bytes()
}

#[test]
fn scalar_from_u64_is_little_endian() {
    let s = Scalar::from(0x0102u64);
    let mut expected = [0u8; 32];
    expected[0] = 2;
    expected[1] = 1;
    assert_eq!(s.to_bytes(), expected);
    assert_eq!(Scalar::one(), Scalar::from(1u64));
}

#[test]
fn canonical_scalars() {
    assert!(Scalar::from_canonical_bytes(MINUS_ONE).is_some());
    assert!(Scalar::from_canonical_bytes(ORDER).is_none());
    assert!(Scalar::from_bytes(MINUS_ONE).is_canonical());
    assert!(!Scalar::from_bytes(ORDER).is_canonical());
    assert!(!Scalar::from_bytes([0xff; 32]).is_canonical());
}

#[test]
fn key_points_are_the_expected_multiples() {
    let key = VerificationKey::from_secret(&Scalar::from(3u64), &Scalar::from(5u64));
    assert_eq!(key.g.to_bytes(), base_multiple(5));
    assert_eq!(key.h.to_bytes(), base_multiple(15));
    assert_eq!(
        VerificationKey::from_secret_decompressed(&Scalar::from(7u64)).to_bytes(),
        base_multiple(7)
    );
}

#[test]
fn key_encoding_is_g_then_h() {
    let key = VerificationKey::from_secret(&Scalar::from(2u64), &Scalar::from(9u64));
    let bytes = key.to_bytes();
    assert_eq!(bytes.len(), 64);
    assert_eq!(&bytes[..32], &key.g.to_bytes()[..]);
    assert_eq!(&bytes[32..], &key.h.to_bytes()[..]);
    assert_eq!(&key.to_bytes_array()[..], &bytes[..]);
    let (g, h) = key.into_point();
    assert_eq!(VerificationKey::new(g, h), key);
    assert_eq!(VerificationKey::from_compressed(g, h), key);
    let (g2, h2) = key.as_point();
    assert_eq!(*g2, g);
    assert_eq!(*h2, h);
}

#[test]
fn key_decoding_length_errors() {
    assert_eq!(VerificationKey::from_bytes(&[0u8; 63]), Err(ZkSchnorrError::InvalidLength));
    assert_eq!(VerificationKey::from_bytes(&[0u8; 65]), Err(ZkSchnorrError::InvalidLength));
    assert_eq!(VerificationKey::from_bytes(&[]), Err(ZkSchnorrError::InvalidLength));
    // Undecodable points are accepted here and rejected at verification.
    assert!(VerificationKey::from_bytes(&[0xffu8; 64]).is_ok());
}

#[test]
fn signature_decoding_length_errors() {
    assert_eq!(Signature::from_bytes(&[0u8; 63]), Err(ZkSchnorrError::InvalidLength));
    assert_eq!(Signature::from_bytes(&[0u8; 65]), Err(ZkSchnorrError::InvalidLength));
    assert!(Signature::from_bytes(&[0xffu8; 64]).is_ok());
}

#[test]
fn signature_encoding_is_s_then_R() {
    let x = Scalar::from(4u64);
    let key = VerificationKey::from_secret(&x, &Scalar::from(6u64));
    let sig = Signature::sign(&mut Transcript::new(b"layout"), key, x);
    let bytes = sig.to_bytes();
    assert_eq!(&bytes[..32], &sig.s.to_bytes()[..]);
    assert_eq!(&bytes[32..], &sig.R.to_bytes()[..]);
    let hex: String = bytes.iter().map(|b| format!("{:02x}", b)).collect();
    assert_eq!(sig.to_hex(), hex);
    assert_eq!(sig.to_hex().len(), 128);
}

#[test]
fn concrete_scenario_same_and_altered_tag() {
    let x = Scalar::from(1u64);
    let key = VerificationKey::from_secret(&x, &Scalar::from(10987u64));
    let sig = Signature::sign(&mut Transcript::new(b"fixed tag"), key, x);
    assert_eq!(sig.verify(&mut Transcript::new(b"fixed tag"), key), Ok(()));
    assert_eq!(
        sig.verify(&mut Transcript::new(b"altered tag"), key),
        Err(ZkSchnorrError::InvalidSignature)
    );
}

#[test]
fn sign_with_given_nonce_verifies_and_has_commitment() {
    let x = Scalar::from(8u64);
    let key = VerificationKey::from_secret(&x, &Scalar::from(3u64));
    let sig = Signature::sign_with_nonce(&mut Transcript::new(b"nonce"), key, x, Scalar::from(11u64));
    // R = 11 * g = 33 * B
    assert_eq!(sig.R.to_bytes(), base_multiple(33));
    assert!(sig.verify(&mut Transcript::new(b"nonce"), key).is_ok());
}

#[test]
fn wrong_key_with_same_randomization_fails() {
    let x = Scalar::from(21u64);
    let r = Scalar::from(77u64);
    let key = VerificationKey::from_secret(&x, &r);
    let other = VerificationKey::from_secret(&Scalar::from(22u64), &r);
    let sig = Signature::sign_message(b"l", b"m", key, x);
    assert!(sig.verify_message(b"l", b"m", key).is_ok());
    assert_eq!(sig.verify_message(b"l", b"m", other), Err(ZkSchnorrError::InvalidSignature));
}

#[test]
fn undecodable_key_fails_verification() {
    let x = Scalar::from(5u64);
    let key = VerificationKey::from_secret(&x, &Scalar::from(6u64));
    let sig = Signature::sign_message(b"l", b"m", key, x);
    let bad = VerificationKey::new(key.g, CompressedPoint::from_bytes([0xff; 32]));
    assert_eq!(sig.verify_message(b"l", b"m", bad), Err(ZkSchnorrError::InvalidSignature));
}

#[test]
fn single_verifier_checks_one_equation() {
    let b = CompressedPoint::from_bytes(base_multiple(1));
    // 1·B + (-1)·B is the identity.
    assert_eq!(
        SingleVerifier::verify(Scalar::one(), vec![Scalar::from_bytes(MINUS_ONE)], vec![b, b]),
        Ok(())
    );
    // 1·B + 1·B is not.
    assert_eq!(
        SingleVerifier::verify(Scalar::one(), vec![Scalar::one()], vec![b, b]),
        Err(ZkSchnorrError::InvalidSignature)
    );
    // A point that does not decompress.
    let bad = CompressedPoint::from_bytes([0xff; 32]);
    assert_eq!(
        SingleVerifier::verify(Scalar::one(), vec![Scalar::from_bytes(MINUS_ONE)], vec![b, bad]),
        Err(ZkSchnorrError::InvalidSignature)
    );
}

#[test]
fn fresh_single_verifier_reports_invalid() {
    assert_eq!(SingleVerifier::new().result(), Err(ZkSchnorrError::InvalidSignature));
    let mut v = SingleVerifier::new();
    let b = CompressedPoint::from_bytes(base_multiple(2));
    v.append(Scalar::from(3u64), vec![Scalar::from_bytes(MINUS_ONE)], vec![b, CompressedPoint::from_bytes(base_multiple(6))]);
    assert_eq!(v.result(), Ok(()));
}

#[test]
fn batch_with_undecodable_point_fails() {
    let mut batch = BatchVerifier::with_capacity(1);
    let b = CompressedPoint::from_bytes(base_multiple(1));
    batch.append(Scalar::one(), vec![Scalar::from_bytes(MINUS_ONE)], vec![b, CompressedPoint::from_bytes([0xff; 32])]);
    assert_eq!(batch.verify(), Err(ZkSchnorrError::InvalidBatch));
}

#[test]
fn batch_of_holding_equations_verifies() {
    let mut batch = BatchVerifier::new();
    let b = CompressedPoint::from_bytes(base_multiple(1));
    let b2 = CompressedPoint::from_bytes(base_multiple(2));
    batch.append(Scalar::one(), vec![Scalar::from_bytes(MINUS_ONE)], vec![b, b]);
    batch.append(Scalar::from(2u64), vec![Scalar::from_bytes(MINUS_ONE)], vec![b, b2]);
    assert_eq!(batch.verify(), Ok(()));
}

#[test]
fn transcript_helpers_change_the_challenge() {
    let p = CompressedPoint::from_bytes(base_multiple(4));
    let mut t1 = Transcript::new(b"helpers");
    let mut t2 = Transcript::new(b"helpers");
    zkschnorr_domain_sep(&mut t1);
    zkschnorr_domain_sep(&mut t2);
    append_point(&mut t1, b"P", &p);
    let c1 = challenge_scalar(&mut t1, b"c");
    let c2 = challenge_scalar(&mut t2, b"c");
    assert_ne!(c1, c2);
    assert!(c1.is_canonical());
    let mut t3 = Transcript::new(b"helpers");
    zkschnorr_domain_sep(&mut t3);
    append_point(&mut t3, b"P", &p);
    assert_eq!(challenge_scalar(&mut t3, b"c"), c1);
}

#[test]
fn bit_flip_in_commitment_fails() {
    let x = Scalar::from(12u64);
    let key = VerificationKey::from_secret(&x, &Scalar::from(34u64));
    let sig = Signature::sign_message(b"l", b"m", key, x);
    let mut bytes = sig.to_bytes();
    bytes[40] ^= 0x04;
    let bad = Signature::from_bytes(&bytes).unwrap();
    assert!(bad.verify_message(b"l", b"m", key).is_err());
}

// The little-endian sum of `a` and the group order.
fn plus_order(a: [u8; 32]) -> [u8; 32] {
    let mut out = [0u8; 32];
    let mut carry = 0u16;
    for i in 0..32 {
        let v = a[i] as u16 + ORDER[i] as u16 + carry;
        out[i] = (v & 0xff) as u8;
        carry = v >> 8;
    }
    out
}

#[test]
fn unreduced_response_is_rejected() {
    let x = Scalar::from(13u64);
    let key = VerificationKey::from_secret(&x, &Scalar::from(17u64));
    let sig = Signature::sign(&mut Transcript::new(b"malleable"), key, x);
    assert!(sig.s.is_canonical());
    let forged = Signature { s: Scalar::from_bytes(plus_order(sig.s.to_bytes())), R: sig.R };
    assert!(!forged.s.is_canonical());
    assert_eq!(
        forged.verify(&mut Transcript::new(b"malleable"), key),
        Err(ZkSchnorrError::InvalidSignature)
    );
    let mut batch = BatchVerifier::new();
    sig.verify_batched(&mut Transcript::new(b"malleable"), key, &mut batch);
    forged.verify_batched(&mut Transcript::new(b"malleable"), key, &mut batch);
    assert_eq!(batch.verify(), Err(ZkSchnorrError::InvalidBatch));
}

#[test]
fn explicit_weights_are_applied() {
    let b = CompressedPoint::from_bytes(base_multiple(1));
    let b3 = CompressedPoint::from_bytes(base_multiple(3));
    let mut batch = BatchVerifier::new();
    // 3·B + (-1)·(3B) holds under any weight.
    batch.append_weighted(Scalar::from(5u64), Scalar::from(3u64), vec![Scalar::from_bytes(MINUS_ONE)], vec![b, b3]);
    assert_eq!(batch.verify(), Ok(()));
    // Two failing equations that cancel under equal weights ...
    let mut cancelling = BatchVerifier::new();
    cancelling.append_weighted(Scalar::one(), Scalar::one(), vec![Scalar::one()], vec![b, b]);
    cancelling.append_weighted(Scalar::one(), Scalar::from_bytes(MINUS_ONE), vec![Scalar::from_bytes(MINUS_ONE)], vec![b, b]);
    assert_eq!(cancelling.verify(), Ok(()));
    // ... do not under different weights.
    let mut weighted = BatchVerifier::new();
    weighted.append_weighted(Scalar::from(2u64), Scalar::one(), vec![Scalar::one()], vec![b, b]);
    weighted.append_weighted(Scalar::from(7u64), Scalar::from_bytes(MINUS_ONE), vec![Scalar::from_bytes(MINUS_ONE)], vec![b, b]);
    assert_eq!(weighted.verify(), Err(ZkSchnorrError::InvalidBatch));
}

#[test]
fn checked_signing() {
    let x = Scalar::from(19u64);
    let key = VerificationKey::from_secret(&x, &Scalar::from(23u64));
    let sig = Signature::try_sign(&mut Transcript::new(b"checked"), key, x).unwrap();
    assert!(sig.verify(&mut Transcript::new(b"checked"), key).is_ok());
    let decoded = VerificationKey::from_bytes(&[0xffu8; 64]).unwrap();
    assert!(Signature::try_sign(&mut Transcript::new(b"checked"), decoded, x).is_none());
    let sig2 = Signature::try_sign_message(b"l", b"m", key, x).unwrap();
    assert!(sig2.verify_message(b"l", b"m", key).is_ok());
    assert!(Signature::try_sign_message(b"l", b"m", decoded, x).is_none());
}
