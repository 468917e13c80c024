use pvss_dkg::algebra::{CurveGroup, Scalar, G1, G2};
use pvss_dkg::bls::{BLSSignature, BLSSignatureG1, BLSSignatureG2, BLSSignatureScheme, SRS};
use pvss_dkg::errors::SignatureError;
use pvss_dkg::scheme::{
    AggregatableSignatureScheme, BatchVerifiableSignatureScheme, SignatureScheme,
};
use pvss_dkg::schnorr::{SchnorrSignature, SRS as SchnorrSRS};
use rand::SeedableRng;
use rand_chacha::ChaCha20Rng;

fn rng() -> ChaCha20Rng {
    ChaCha20Rng::from_entropy()
}

fn bls_scheme<B: BLSSignatureScheme>(rng: &mut ChaCha20Rng) -> BLSSignature<B> {
    let srs = SRS::<B>::setup(rng).unwrap();
    BLSSignature { srs }
}

fn schnorr_scheme<C: CurveGroup>(rng: &mut ChaCha20Rng) -> SchnorrSignature<C> {
    let srs = SchnorrSRS::<C>::setup(rng).unwrap();
    SchnorrSignature { srs }
}

fn simple_sig<S: SignatureScheme>(scheme: &S, rng: &mut ChaCha20Rng) {
    let keypair = scheme.generate_keypair(rng).unwrap();
    let message = b"hello";
    let signature = scheme.sign(rng, &keypair.0, &message[..]).unwrap();
    scheme.verify(&keypair.1, &message[..], &signature).unwrap();
}

fn simple_sig_wrong_pk<S: SignatureScheme>(scheme: &S, rng: &mut ChaCha20Rng) {
    let keypair = scheme.generate_keypair(rng).unwrap();
    let message = b"hello";
    let signature = scheme.sign(rng, &keypair.0, &message[..]).unwrap();
    let keypair2 = scheme.generate_keypair(rng).unwrap();
    scheme.verify(&keypair2.1, &message[..], &signature).unwrap();
}

fn simple_sig_wrong_message<S: SignatureScheme>(scheme: &S, rng: &mut ChaCha20Rng) {
    let keypair = scheme.generate_keypair(rng).unwrap();
    let message = b"hello";
    let signature = scheme.sign(rng, &keypair.0, &message[..]).unwrap();
    let wrong_message = b"goodbye";
    scheme.verify(&keypair.1, &wrong_message[..], &signature).unwrap();
}

fn simple_sig_batch<S: BatchVerifiableSignatureScheme>(scheme: &S, rng: &mut ChaCha20Rng) {
    let keypair = scheme.generate_keypair(rng).unwrap();
    let message = b"hello";
    let signature = scheme.sign(rng, &keypair.0, &message[..]).unwrap();
    let keypair2 = scheme.generate_keypair(rng).unwrap();
    let message2 = b"hello2";
    let signature2 = scheme.sign(rng, &keypair2.0, &message2[..]).unwrap();
    scheme
        .batch_verify(
            rng,
            &vec![keypair.1, keypair2.1],
            &vec![message.to_vec(), message2.to_vec()],
            &vec![signature, signature2],
        )
        .unwrap();
}

fn aggregated_sig<B: BLSSignatureScheme>(rng: &mut ChaCha20Rng, wrong: u8) {
    let bls = bls_scheme::<B>(rng);
    let keypair1 = bls.generate_keypair(rng).unwrap();
    let keypair2 = bls.generate_keypair(rng).unwrap();
    let message = b"hello";
    let signature1 = bls.sign(rng, &keypair1.0, &message[..]).unwrap();
    bls.verify(&keypair1.1, &message[..], &signature1).unwrap();
    let signature2 = bls.sign(rng, &keypair2.0, &message[..]).unwrap();
    bls.verify(&keypair2.1, &message[..], &signature2).unwrap();
    let aggregated_pk = bls
        .aggregate_public_keys(&vec![keypair1.1.duplicate(), keypair2.1.duplicate()])
        .unwrap();
    let aggregated_sig = bls.aggregate_signatures(&vec![signature1, signature2]).unwrap();
    match wrong {
        0 => bls.verify(&aggregated_pk, &message[..], &aggregated_sig).unwrap(),
        1 => bls.verify(&keypair1.1, &message[..], &aggregated_sig).unwrap(),
        _ => bls.verify(&aggregated_pk, &b"goodbye"[..], &aggregated_sig).unwrap(),
    }
}

#[test]
fn mod_test_simple_sig_g1() {
    let rng = &mut rng();
    simple_sig(&bls_scheme::<BLSSignatureG1>(rng), rng);
}

#[test]
fn mod_test_simple_sig_g2() {
    let rng = &mut rng();
    simple_sig(&bls_scheme::<BLSSignatureG2>(rng), rng);
}

#[test]
#[should_panic]
fn mod_test_simple_sig_wrong_pk_g1() {
    let rng = &mut rng();
    simple_sig_wrong_pk(&bls_scheme::<BLSSignatureG1>(rng), rng);
}

#[test]
#[should_panic]
fn mod_test_simple_sig_wrong_pk_g2() {
    let rng = &mut rng();
    simple_sig_wrong_pk(&bls_scheme::<BLSSignatureG2>(rng), rng);
}

#[test]
#[should_panic]
fn mod_test_simple_sig_wrong_message_g1() {
    let rng = &mut rng();
    simple_sig_wrong_message(&bls_scheme::<BLSSignatureG1>(rng), rng);
}

#[test]
#[should_panic]
fn mod_test_simple_sig_wrong_message_g2() {
    let rng = &mut rng();
    simple_sig_wrong_message(&bls_scheme::<BLSSignatureG2>(rng), rng);
}

#[test]
fn test_aggregated_sig_g1() {
    aggregated_sig::<BLSSignatureG1>(&mut rng(), 0);
}

#[test]
fn test_aggregated_sig_g2() {
    aggregated_sig::<BLSSignatureG2>(&mut rng(), 0);
}

#[test]
#[should_panic]
fn test_aggregated_sig_wrong_pk_g1() {
    aggregated_sig::<BLSSignatureG1>(&mut rng(), 1);
}

#[test]
#[should_panic]
fn test_aggregated_sig_wrong_pk_g2() {
    aggregated_sig::<BLSSignatureG2>(&mut rng(), 1);
}

#[test]
#[should_panic]
fn test_aggregated_sig_wrong_message_g1() {
    aggregated_sig::<BLSSignatureG1>(&mut rng(), 2);
}

#[test]
#[should_panic]
fn test_aggregated_sig_wrong_message_g2() {
    aggregated_sig::<BLSSignatureG2>(&mut rng(), 2);
}

#[test]
fn mod_test_simple_sig_batch_g1() {
    let rng = &mut rng();
    simple_sig_batch(&bls_scheme::<BLSSignatureG1>(rng), rng);
}

#[test]
fn mod_test_simple_sig_batch_g2() {
    let rng = &mut rng();
    simple_sig_batch(&bls_scheme::<BLSSignatureG2>(rng), rng);
}

#[test]
fn test_simple_sig_g1() {
    let rng = &mut rng();
    simple_sig(&schnorr_scheme::<G1>(rng), rng);
}

#[test]
fn test_simple_sig_g2() {
    let rng = &mut rng();
    simple_sig(&schnorr_scheme::<G2>(rng), rng);
}

#[test]
#[should_panic]
fn test_simple_sig_wrong_pk_g1() {
    let rng = &mut rng();
    simple_sig_wrong_pk(&schnorr_scheme::<G1>(rng), rng);
}

#[test]
#[should_panic]
fn test_simple_sig_wrong_pk_g2() {
    let rng = &mut rng();
    simple_sig_wrong_pk(&schnorr_scheme::<G2>(rng), rng);
}

#[test]
#[should_panic]
fn test_simple_sig_wrong_message_g1() {
    let rng = &mut rng();
    simple_sig_wrong_message(&schnorr_scheme::<G1>(rng), rng);
}

#[test]
#[should_panic]
fn test_simple_sig_wrong_message_g2() {
    let rng = &mut rng();
    simple_sig_wrong_message(&schnorr_scheme::<G2>(rng), rng);
}

#[test]
fn test_simple_sig_batch_g1() {
    let rng = &mut rng();
    simple_sig_batch(&schnorr_scheme::<G1>(rng), rng);
}

#[test]
fn test_simple_sig_batch_g2() {
    let rng = &mut rng();
    simple_sig_batch(&schnorr_scheme::<G2>(rng), rng);
}

#[test]
fn wrong_message_fails_with_scheme_error() {
    let rng = &mut rng();
    let bls = bls_scheme::<BLSSignatureG1>(rng);
    let kp = bls.generate_keypair(rng).unwrap();
    let sig = bls.sign(rng, &kp.0, b"hello").unwrap();
    assert_eq!(bls.verify(&kp.1, b"goodbye", &sig), Err(SignatureError::BLSVerify));
    let schnorr = schnorr_scheme::<G2>(rng);
    let kp = schnorr.generate_keypair(rng).unwrap();
    let sig = schnorr.sign(rng, &kp.0, b"hello").unwrap();
    assert_eq!(schnorr.verify(&kp.1, b"goodbye", &sig), Err(SignatureError::SchnorrVerify));
}

#[test]
fn batch_with_a_wrong_message_fails() {
    let rng = &mut rng();
    let bls = bls_scheme::<BLSSignatureG2>(rng);
    let kp1 = bls.generate_keypair(rng).unwrap();
    let kp2 = bls.generate_keypair(rng).unwrap();
    let s1 = bls.sign(rng, &kp1.0, b"hello").unwrap();
    let s2 = bls.sign(rng, &kp2.0, b"hello2").unwrap();
    let r = bls.batch_verify(
        rng,
        &vec![kp1.1, kp2.1],
        &vec![b"hello".to_vec(), b"goodbye".to_vec()],
        &vec![s1, s2],
    );
    assert_eq!(r, Err(SignatureError::BLSVerify));
    let schnorr = schnorr_scheme::<G1>(rng);
    let kp1 = schnorr.generate_keypair(rng).unwrap();
    let kp2 = schnorr.generate_keypair(rng).unwrap();
    let s1 = schnorr.sign(rng, &kp1.0, b"hello").unwrap();
    let s2 = schnorr.sign(rng, &kp2.0, b"hello2").unwrap();
    let r = schnorr.batch_verify(
        rng,
        &vec![kp1.1, kp2.1],
        &vec![b"hello".to_vec(), b"goodbye".to_vec()],
        &vec![s1, s2],
    );
    assert_eq!(r, Err(SignatureError::SchnorrVerify));
}

#[test]
fn batch_length_mismatch_is_reported() {
    let rng = &mut rng();
    let bls = bls_scheme::<BLSSignatureG1>(rng);
    let kp = bls.generate_keypair(rng).unwrap();
    let s = bls.sign(rng, &kp.0, b"hello").unwrap();
    let r = bls.batch_verify(rng, &vec![kp.1], &vec![b"hello".to_vec(), b"x".to_vec()], &vec![s]);
    assert_eq!(r, Err(SignatureError::BatchVerification(1, 2, 1)));
    let schnorr = schnorr_scheme::<G2>(rng);
    let kp = schnorr.generate_keypair(rng).unwrap();
    let r = schnorr.batch_verify(rng, &vec![kp.1], &vec![b"hello".to_vec()], &vec![]);
    assert_eq!(r, Err(SignatureError::BatchVerification(1, 1, 0)));
}

#[test]
fn schnorr_signatures_differ_but_both_verify() {
    let rng = &mut rng();
    let schnorr = schnorr_scheme::<G1>(rng);
    let kp = schnorr.generate_keypair(rng).unwrap();
    let s1 = schnorr.sign(rng, &kp.0, b"hello").unwrap();
    let s2 = schnorr.sign(rng, &kp.0, b"hello").unwrap();
    assert_ne!(s1, s2);
    schnorr.verify(&kp.1, b"hello", &s1).unwrap();
    schnorr.verify(&kp.1, b"hello", &s2).unwrap();
}

#[test]
fn bls_signing_is_deterministic() {
    let rng = &mut rng();
    let bls = bls_scheme::<BLSSignatureG1>(rng);
    let kp = bls.generate_keypair(rng).unwrap();
    let s1 = bls.sign(rng, &kp.0, b"hello").unwrap();
    let s2 = bls.sign(rng, &kp.0, b"hello").unwrap();
    assert_eq!(s1, s2);
    let from_sk = bls.from_sk(&kp.0).unwrap();
    assert_eq!(from_sk.1, kp.1);
}

#[test]
fn empty_batch_verifies() {
    let rng = &mut rng();
    let bls = bls_scheme::<BLSSignatureG1>(rng);
    bls.batch_verify(rng, &vec![], &vec![], &vec![]).unwrap();
    let schnorr = schnorr_scheme::<G2>(rng);
    schnorr.batch_verify(rng, &vec![], &vec![], &vec![]).unwrap();
}

fn check_point_g1(p: &G1) {
    assert_eq!(G1::from_bytes(p.to_bytes()), Some(p.clone()));
}

fn check_point_g2(p: &G2) {
    assert_eq!(G2::from_bytes(p.to_bytes()), Some(p.clone()));
}

fn check_scalar(k: &Scalar) {
    assert_eq!(Scalar::from_bytes(k.to_bytes()), Some(k.clone()));
}

#[test]
fn mod_test_serialization_g1() {
    let rng = &mut rng();
    let srs = SRS::<BLSSignatureG1>::setup(rng).unwrap();
    let bls = BLSSignature { srs: srs.clone() };
    let keypair = bls.generate_keypair(rng).unwrap();
    let signature = bls.sign(rng, &keypair.0, &b"hello"[..]).unwrap();
    check_point_g2(&srs.g_public_key);
    check_point_g1(&srs.g_signature);
    check_scalar(&keypair.0);
    check_point_g2(&keypair.1);
    check_point_g1(&signature);
}

#[test]
fn mod_test_serialization_g2() {
    let rng = &mut rng();
    let srs = SRS::<BLSSignatureG2>::setup(rng).unwrap();
    let bls = BLSSignature { srs: srs.clone() };
    let keypair = bls.generate_keypair(rng).unwrap();
    let signature = bls.sign(rng, &keypair.0, &b"hello"[..]).unwrap();
    check_point_g1(&srs.g_public_key);
    check_point_g2(&srs.g_signature);
    check_scalar(&keypair.0);
    check_point_g1(&keypair.1);
    check_point_g2(&signature);
}

#[test]
fn test_serialization_g1() {
    let rng = &mut rng();
    let srs = SchnorrSRS::<G1>::setup(rng).unwrap();
    let schnorr = SchnorrSignature { srs: srs.clone() };
    let keypair = schnorr.generate_keypair(rng).unwrap();
    let signature = schnorr.sign(rng, &keypair.0, &b"hello"[..]).unwrap();
    check_point_g1(&srs.g_public_key);
    check_scalar(&keypair.0);
    check_point_g1(&keypair.1);
    check_point_g1(&signature.0);
    check_scalar(&signature.1);
}

#[test]
fn test_serialization_g2() {
    let rng = &mut rng();
    let srs = SchnorrSRS::<G2>::setup(rng).unwrap();
    let schnorr = SchnorrSignature { srs: srs.clone() };
    let keypair = schnorr.generate_keypair(rng).unwrap();
    let signature = schnorr.sign(rng, &keypair.0, &b"hello"[..]).unwrap();
    check_point_g2(&srs.g_public_key);
    check_scalar(&keypair.0);
    check_point_g2(&keypair.1);
    check_point_g2(&signature.0);
    check_scalar(&signature.1);
}

#[test]
fn bls_signing_leaves_the_rng_alone() {
    let rng = &mut rng();
    let bls = bls_scheme::<BLSSignatureG2>(rng);
    let kp = bls.generate_keypair(rng).unwrap();
    let before = rng.clone();
    let s = bls.sign(rng, &kp.0, b"hello").unwrap();
    assert!(*rng == before);
    bls.verify(&kp.1, b"hello", &s).unwrap();
}

#[test]
fn mismatched_batch_leaves_the_rng_alone() {
    let rng = &mut rng();
    let schnorr = schnorr_scheme::<G1>(rng);
    let kp = schnorr.generate_keypair(rng).unwrap();
    let before = rng.clone();
    let r = schnorr.batch_verify(rng, &vec![kp.1], &vec![], &vec![]);
    assert_eq!(r, Err(SignatureError::BatchVerification(1, 0, 0)));
    assert!(*rng == before);
}
