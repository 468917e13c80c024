use pvss_dkg::algebra::{Scalar, G1, G2};
use pvss_dkg::algebraic::{Keypair, ProvenPublicKey, Signature, SRS};
use pvss_dkg::errors::{SignatureError, VerifyProofEquation};
use rand::SeedableRng;
use rand_chacha::ChaCha20Rng;

fn rng() -> ChaCha20Rng {
    ChaCha20Rng::from_entropy()
}

fn proven(keypair: &Keypair) -> ProvenPublicKey {
    let k = keypair.prove_key().unwrap();
    k.verify().unwrap();
    k
}

fn two_signers(rng: &mut ChaCha20Rng) -> (SRS, ProvenPublicKey, ProvenPublicKey, Signature, Signature) {
    let srs = SRS::setup(rng).unwrap();
    let keypair1 = Keypair::generate_keypair(rng, srs.clone()).unwrap();
    let keypair2 = Keypair::generate_keypair(rng, srs.clone()).unwrap();
    let message = b"hello";
    let pk1 = proven(&keypair1);
    let pk2 = proven(&keypair2);
    let signature1 = keypair1.sign(&message[..]).unwrap();
    signature1.verify_and_derive(pk1.clone(), &message[..]).unwrap();
    let signature2 = keypair2.sign(&message[..]).unwrap();
    signature2.verify_and_derive(pk2.clone(), &message[..]).unwrap();
    (srs, pk1, pk2, signature1, signature2)
}

#[test]
fn test_simple_sig() {
    let rng = &mut rng();
    let srs = SRS::setup(rng).unwrap();
    let keypair = Keypair::generate_keypair(rng, srs).unwrap();
    let message = b"hello";
    let proven_public_key = proven(&keypair);
    let signature = keypair.sign(&message[..]).unwrap();
    signature.verify_and_derive(proven_public_key, &message[..]).unwrap();
}

#[test]
#[should_panic]
fn test_simple_sig_wrong_pk() {
    let rng = &mut rng();
    let srs = SRS::setup(rng).unwrap();
    let keypair = Keypair::generate_keypair(rng, srs.clone()).unwrap();
    let message = b"hello";
    let signature = keypair.sign(&message[..]).unwrap();
    let keypair2 = Keypair::generate_keypair(rng, srs).unwrap();
    let proven_public_key2 = proven(&keypair2);
    signature.verify_and_derive(proven_public_key2, &message[..]).unwrap();
}

#[test]
#[should_panic]
fn test_simple_sig_wrong_message() {
    let rng = &mut rng();
    let srs = SRS::setup(rng).unwrap();
    let keypair = Keypair::generate_keypair(rng, srs).unwrap();
    let proven_public_key = proven(&keypair);
    let signature = keypair.sign(&b"hello"[..]).unwrap();
    signature.verify_and_derive(proven_public_key, &b"goodbye"[..]).unwrap();
}

#[test]
fn test_aggregated_sig() {
    let rng = &mut rng();
    let (srs, pk1, pk2, signature1, signature2) = two_signers(rng);
    let aggregated_pk = ProvenPublicKey::aggregate(&vec![pk1, pk2], srs.clone()).unwrap();
    let aggregated_sig = Signature::aggregate(&vec![signature1, signature2]).unwrap();
    aggregated_sig.verify_and_derive(aggregated_pk, b"hello").unwrap();
}

#[test]
#[should_panic]
fn test_aggregated_sig_wrong_pk() {
    let rng = &mut rng();
    let (_srs, pk1, _pk2, signature1, signature2) = two_signers(rng);
    let aggregated_sig = Signature::aggregate(&vec![signature1, signature2]).unwrap();
    aggregated_sig.verify_and_derive(pk1, b"hello").unwrap();
}

#[test]
#[should_panic]
fn test_aggregated_sig_wrong_message() {
    let rng = &mut rng();
    let (srs, pk1, pk2, signature1, signature2) = two_signers(rng);
    let aggregated_pk = ProvenPublicKey::aggregate(&vec![pk1, pk2], srs.clone()).unwrap();
    let aggregated_sig = Signature::aggregate(&vec![signature1, signature2]).unwrap();
    aggregated_sig.verify_and_derive(aggregated_pk, b"goodbye").unwrap();
}

#[test]
fn aggregated_sig_failures_name_the_equation() {
    let rng = &mut rng();
    let (srs, pk1, pk2, signature1, signature2) = two_signers(rng);
    let aggregated_pk = ProvenPublicKey::aggregate(&vec![pk1.clone(), pk2], srs.clone()).unwrap();
    aggregated_pk.verify().unwrap();
    let aggregated_sig = Signature::aggregate(&vec![signature1, signature2]).unwrap();
    let eq2 = SignatureError::AlgebraicVerifyProof(VerifyProofEquation::Eq2);
    assert_eq!(aggregated_sig.verify_and_derive(pk1, b"hello").unwrap_err(), eq2);
    assert_eq!(aggregated_sig.verify_and_derive(aggregated_pk.clone(), b"goodbye").unwrap_err(), eq2);
    let derived = aggregated_sig.verify_and_derive(aggregated_pk.clone(), b"hello").unwrap();
    assert_eq!(derived, aggregated_sig.derive(aggregated_pk, b"hello").unwrap());
    let other_srs = SRS::setup(rng).unwrap();
    let keypair = Keypair::generate_keypair(rng, other_srs).unwrap();
    let stranger = keypair.prove_key().unwrap();
    assert_eq!(
        ProvenPublicKey::aggregate(&vec![stranger], srs).unwrap_err(),
        SignatureError::SRSDifferent
    );
}

#[test]
fn test_refresh_randomness() {
    let rng = &mut rng();
    let srs = SRS::setup(rng).unwrap();
    let keypair = Keypair::generate_keypair(rng, srs).unwrap();
    let message = b"hello";
    let proven_public_key = proven(&keypair);
    let signature = keypair.sign(&message[..]).unwrap();
    signature.verify_and_derive(proven_public_key, &message[..]).unwrap();
    let refreshed_keypair = keypair.refresh_randomness(rng).unwrap();
    let proven_refreshed_public_key = proven(&refreshed_keypair);
    signature
        .verify_and_derive(proven_refreshed_public_key.clone(), &message[..])
        .unwrap_err();
    let signature = refreshed_keypair.sign(&message[..]).unwrap();
    signature.verify_and_derive(proven_refreshed_public_key, &message[..]).unwrap();
}

#[test]
fn test_simple_sig_probabilistic() {
    let rng = &mut rng();
    let srs = SRS::setup(rng).unwrap();
    let keypair = Keypair::generate_keypair(rng, srs).unwrap();
    let message = b"hello";
    let proven_public_key = proven(&keypair);
    let signature = keypair.sign(&message[..]).unwrap();
    proven_public_key.verify_probabilistically(rng).unwrap();
    signature.verify_and_derive(proven_public_key, &message[..]).unwrap();
}

#[test]
#[should_panic]
fn test_simple_sig_probabilistic_wrong_pk() {
    let rng = &mut rng();
    let srs = SRS::setup(rng).unwrap();
    let keypair = Keypair::generate_keypair(rng, srs.clone()).unwrap();
    let signature = keypair.sign(&b"hello"[..]).unwrap();
    let keypair2 = Keypair::generate_keypair(rng, srs).unwrap();
    let proven_public_key2 = keypair2.prove_key().unwrap();
    proven_public_key2.verify_probabilistically(rng).unwrap();
    proven_public_key2.verify().unwrap();
    signature.verify_and_derive(proven_public_key2, &b"hello"[..]).unwrap();
}

#[test]
fn test_simple_sig_all_probabilistic() {
    let rng = &mut rng();
    let srs = SRS::setup(rng).unwrap();
    let keypair = Keypair::generate_keypair(rng, srs).unwrap();
    let message = b"hello";
    let proven_public_key = proven(&keypair);
    let signature = keypair.sign(&message[..]).unwrap();
    signature
        .verify_all_probabilistically(rng, proven_public_key.clone(), &message[..])
        .unwrap();
    signature.derive(proven_public_key, &message[..]).unwrap();
}

#[test]
#[should_panic]
fn test_simple_sig_all_probabilistic_wrong_pk() {
    let rng = &mut rng();
    let srs = SRS::setup(rng).unwrap();
    let keypair = Keypair::generate_keypair(rng, srs.clone()).unwrap();
    let signature = keypair.sign(&b"hello"[..]).unwrap();
    let keypair2 = Keypair::generate_keypair(rng, srs).unwrap();
    let proven_public_key2 = proven(&keypair2);
    signature
        .verify_all_probabilistically(rng, proven_public_key2.clone(), &b"hello"[..])
        .unwrap();
    signature.verify_and_derive(proven_public_key2, &b"hello"[..]).unwrap();
}

#[test]
fn test_serialization() {
    let rng = &mut rng();
    let srs = SRS::setup(rng).unwrap();
    let keypair = Keypair::generate_keypair(rng, srs.clone()).unwrap();
    let signature = keypair.sign(&b"hello"[..]).unwrap();
    for p in [&srs.g_1_g2, &srs.g_2_g2, &srs.g_3_g2, &srs.g_4_g2, &keypair.private.sk] {
        assert_eq!(G2::from_bytes(p.to_bytes()).as_ref(), Some(p));
    }
    for p in [&srs.h_g1, &keypair.public.pk, &signature.signature_proof.pi_2_g1, &signature.signature_proof.pi_4_g1] {
        assert_eq!(G1::from_bytes(p.to_bytes()).as_ref(), Some(p));
    }
    for k in [&keypair.alpha, &keypair.beta] {
        assert_eq!(Scalar::from_bytes(k.to_bytes()).as_ref(), Some(k));
    }
}
