use pvss_dkg::algebra::{Scalar, G1, G2};
use pvss_dkg::bls::{BLSSignature, BLSSignatureG1, BLSSignatureG2, SRS as BLSSRS};
use pvss_dkg::participant::SRS as DKGSRS;
use pvss_dkg::schnorr::SRS as SchnorrSRS;
use pvss_dkg::errors::{DKGError, VerifyProofEquation};
use pvss_dkg::hash::{hash_to_field, hash_to_group};
use pvss_dkg::pvss::PVSSShare;
use pvss_dkg::transcript::{message_from_c_i, DKGTranscript, DKGTranscriptParticipant};
use rand::SeedableRng;
use rand_chacha::ChaCha20Rng;

type T = DKGTranscript<BLSSignature<BLSSignatureG2>, BLSSignature<BLSSignatureG1>>;
type P = DKGTranscriptParticipant<BLSSignature<BLSSignatureG2>, BLSSignature<BLSSignatureG1>>;

fn rng() -> ChaCha20Rng {
    ChaCha20Rng::seed_from_u64(7)
}

fn entry(c: &G1, weight: u64, pok: &G2, sig: &G1) -> P {
    DKGTranscriptParticipant { c_i: c.clone(), weight, c_i_pok: pok.clone(), signature_on_c_i: sig.clone() }
}

fn random_share(rng: &mut ChaCha20Rng, t: usize, n: usize) -> PVSSShare {
    PVSSShare {
        f_i: (0..t).map(|_| G1::random(rng)).collect(),
        u_i_2: G2::random(rng),
        a_i: (0..n).map(|_| G1::random(rng)).collect(),
        y_i: (0..n).map(|_| G2::random(rng)).collect(),
    }
}

fn transcript_with(ids: &[(usize, &P)], share: PVSSShare) -> T {
    let mut t = T::empty(1, 4);
    for (id, e) in ids {
        t.contributions.insert(*id, (*e).clone());
    }
    t.pvss_share = share;
    t
}

#[test]
fn aggregation_commutes() {
    let rng = &mut rng();
    let (c0, c1, c2) = (G1::random(rng), G1::random(rng), G1::random(rng));
    let (pok, sig) = (G2::random(rng), G1::random(rng));
    let a = transcript_with(&[(0, &entry(&c0, 1, &pok, &sig)), (1, &entry(&c1, 2, &pok, &sig))], random_share(rng, 1, 4));
    let b = transcript_with(&[(1, &entry(&c1, 3, &pok, &sig)), (2, &entry(&c2, 1, &pok, &sig))], random_share(rng, 1, 4));
    let ab = a.aggregate(&b).unwrap();
    let ba = b.aggregate(&a).unwrap();
    assert_eq!(ab.contributions.len(), 3);
    assert_eq!(ab.contributions[&1].weight, 5);
    for id in 0..3usize {
        assert_eq!(ab.contributions[&id].c_i, ba.contributions[&id].c_i);
        assert_eq!(ab.contributions[&id].weight, ba.contributions[&id].weight);
    }
    assert_eq!(ab.pvss_share.a_i, ba.pvss_share.a_i);
    assert_eq!(ab.pvss_share.y_i, ba.pvss_share.y_i);
    assert_eq!(ab.pvss_share.f_i, ba.pvss_share.f_i);
    assert_eq!(ab.pvss_share.u_i_2, ba.pvss_share.u_i_2);
}

#[test]
fn aggregation_associates() {
    let rng = &mut rng();
    let (c0, c1) = (G1::random(rng), G1::random(rng));
    let (pok, sig) = (G2::random(rng), G1::random(rng));
    let a = transcript_with(&[(0, &entry(&c0, 1, &pok, &sig))], random_share(rng, 1, 4));
    let b = transcript_with(&[(0, &entry(&c0, 2, &pok, &sig)), (3, &entry(&c1, 1, &pok, &sig))], random_share(rng, 1, 4));
    let c = transcript_with(&[(3, &entry(&c1, 4, &pok, &sig))], random_share(rng, 1, 4));
    let l = a.aggregate(&b).unwrap().aggregate(&c).unwrap();
    let r = a.aggregate(&b.aggregate(&c).unwrap()).unwrap();
    assert_eq!(l.contributions[&0].weight, 3);
    assert_eq!(l.contributions[&3].weight, 5);
    assert_eq!(r.contributions[&0].weight, 3);
    assert_eq!(r.contributions[&3].weight, 5);
    assert_eq!(l.pvss_share.a_i, r.pvss_share.a_i);
    assert_eq!(l.pvss_share.y_i, r.pvss_share.y_i);
}

#[test]
fn aggregation_rejects_different_config() {
    let a = T::empty(1, 4);
    let b = T::empty(2, 8);
    match a.aggregate(&b) {
        Err(e) => assert_eq!(e, DKGError::TranscriptDifferentConfig(1, 2, 4, 8)),
        Ok(_) => panic!("different configurations were aggregated"),
    }
}

#[test]
fn aggregation_rejects_different_commitments() {
    let rng = &mut rng();
    let (pok, sig) = (G2::random(rng), G1::random(rng));
    let a = transcript_with(&[(2, &entry(&G1::random(rng), 1, &pok, &sig))], random_share(rng, 1, 4));
    let b = transcript_with(&[(2, &entry(&G1::random(rng), 1, &pok, &sig))], random_share(rng, 1, 4));
    match a.aggregate(&b) {
        Err(e) => assert_eq!(e, DKGError::TranscriptDifferentCommitments),
        Ok(_) => panic!("different commitments were aggregated"),
    }
}

#[test]
fn aggregation_drops_ids_beyond_the_roster() {
    let rng = &mut rng();
    let (pok, sig) = (G2::random(rng), G1::random(rng));
    let a = transcript_with(&[(9, &entry(&G1::random(rng), 1, &pok, &sig))], random_share(rng, 1, 4));
    let b = T::empty(1, 4);
    let ab = a.aggregate(&b).unwrap();
    assert!(ab.contributions.is_empty());
}

#[test]
fn empty_share_is_neutral() {
    let rng = &mut rng();
    let s = random_share(rng, 2, 4);
    let e = PVSSShare::empty(2, 4);
    assert_eq!(e.f_i.len(), 2);
    let sum = e.aggregate(&s);
    assert_eq!(sum.a_i, s.a_i);
    assert_eq!(sum.y_i, s.y_i);
    assert_eq!(sum.f_i, s.f_i);
    assert_eq!(sum.u_i_2, s.u_i_2);
}

#[test]
fn point_arithmetic() {
    let rng = &mut rng();
    let p = G1::random(rng);
    let q = G1::random(rng);
    assert_ne!(p.plus(&q), p);
    assert_eq!(p.plus(&q), q.plus(&p));
    assert!(p.plus(&p.negate()).is_identity());
    assert_eq!(p.times(&Scalar::from_u64(2)), p.plus(&p));
    assert_eq!(p.times(&Scalar::one()), p);
    let two = Scalar::from_u64(2);
    let three = Scalar::from_u64(3);
    assert_eq!(two.times(&three), Scalar::from_u64(6));
    assert_eq!(three.minus(&two), Scalar::one());
    assert_eq!(two.negate().negate(), two);
    assert_eq!(two.times(&two.inverse().unwrap()), Scalar::one());
    assert!(Scalar::from_u64(0).inverse().is_none());
    let h = G2::random(rng);
    assert_eq!(h.times(&three), h.plus(&h).plus(&h));
    assert!(G2::identity().is_identity());
    assert_eq!(G1::msm(&vec![p.clone(), q.clone()], &vec![two.clone(), Scalar::one()]), p.plus(&p).plus(&q));
}

#[test]
fn encodings_round_trip() {
    let rng = &mut rng();
    let p = G1::random(rng);
    assert_eq!(p.to_bytes().len(), 48);
    assert_eq!(G1::from_bytes(p.to_bytes()), Some(p.clone()));
    let h = G2::random(rng);
    assert_eq!(h.to_bytes().len(), 96);
    assert_eq!(G2::from_bytes(h.to_bytes()), Some(h.clone()));
    let k = Scalar::random(rng);
    assert_eq!(Scalar::from_bytes(k.to_bytes()), Some(k.clone()));
    assert_eq!(G1::from_bytes(vec![1u8; 48]), None);
    assert_eq!(Scalar::from_bytes(vec![0xffu8; 32]), None);
    let mut zero = vec![0u8; 48];
    zero[47] = 0x40;
    assert_eq!(G1::identity().to_bytes(), zero);
    assert_eq!(message_from_c_i(&p).unwrap(), p.to_bytes());
}

#[test]
fn hashing_is_deterministic() {
    let pers = b"BLSSIGNA".to_vec();
    let a: G1 = hash_to_group(&pers, b"hello").unwrap();
    let b: G1 = hash_to_group(&pers, b"hello").unwrap();
    let c: G1 = hash_to_group(&pers, b"goodbye").unwrap();
    assert_eq!(a, b);
    assert_ne!(a, c);
    assert!(!a.is_identity());
    let d: G2 = hash_to_group(&pers, b"hello").unwrap();
    assert!(!d.is_identity());
    let k1 = hash_to_field(&b"SCHSIGNA".to_vec(), b"hello").unwrap();
    let k2 = hash_to_field(&b"SCHSIGNA".to_vec(), b"hello").unwrap();
    let k3 = hash_to_field(&b"BLSSIGNA".to_vec(), b"hello").unwrap();
    assert_eq!(k1, k2);
    assert_ne!(k1, k3);
}

#[test]
fn equation_names() {
    assert_eq!(VerifyProofEquation::Eq1.name(), "Eq1");
    assert_eq!(VerifyProofEquation::EqAllProbabilistic.name(), "EqAllProbabilistic");
}

#[test]
fn share_encoding_round_trips() {
    let rng = &mut rng();
    let s = random_share(rng, 2, 4);
    let bytes = s.to_bytes();
    assert_eq!(bytes.len(), 8 + 2 * 48 + 96 + 8 + 4 * 48 + 8 + 4 * 96);
    assert_eq!(&bytes[0..8], &[2u8, 0, 0, 0, 0, 0, 0, 0]);
    let back = PVSSShare::from_bytes(&bytes).unwrap();
    assert_eq!(back.f_i, s.f_i);
    assert_eq!(back.u_i_2, s.u_i_2);
    assert_eq!(back.a_i, s.a_i);
    assert_eq!(back.y_i, s.y_i);
    let mut longer = bytes.clone();
    longer.push(0);
    assert!(PVSSShare::from_bytes(&longer).is_none());
    assert!(PVSSShare::from_bytes(&bytes[..bytes.len() - 1]).is_none());
    let empty = PVSSShare::empty(0, 0);
    let back = PVSSShare::from_bytes(&empty.to_bytes()).unwrap();
    assert_eq!(back.f_i, empty.f_i);
    assert!(back.a_i.is_empty());
}

#[test]
fn generators_have_their_fixed_encodings() {
    let g1: Vec<u8> = vec![187, 198, 34, 219, 10, 240, 58, 251, 239, 26, 122, 249, 63, 232, 85, 108, 88, 172, 27, 23, 63, 58, 78, 161, 5, 185, 116, 151, 79, 140, 104, 195, 15, 172, 169, 79, 140, 99, 149, 38, 148, 215, 151, 49, 167, 211, 241, 23];
    let g2: Vec<u8> = vec![184, 189, 33, 193, 200, 86, 128, 212, 239, 187, 5, 168, 38, 3, 172, 11, 119, 209, 227, 122, 100, 11, 81, 180, 2, 59, 64, 250, 212, 122, 228, 198, 81, 16, 197, 45, 39, 5, 8, 38, 145, 10, 143, 240, 178, 162, 74, 2, 126, 43, 4, 93, 5, 125, 172, 229, 87, 93, 148, 19, 18, 241, 76, 51, 73, 80, 127, 220, 187, 97, 218, 181, 26, 182, 32, 153, 208, 208, 107, 89, 101, 79, 39, 136, 160, 211, 172, 125, 96, 159, 113, 82, 96, 43, 224, 19];
    assert_eq!(G1::generator().to_bytes(), g1);
    assert_eq!(G2::generator().to_bytes(), g2);
}

#[test]
fn scalar_arithmetic_is_modular() {
    let minus_one: Vec<u8> = vec![0, 0, 0, 0, 255, 255, 255, 255, 254, 91, 254, 255, 2, 164, 189, 83, 5, 216, 161, 9, 8, 216, 57, 51, 72, 125, 157, 41, 83, 167, 237, 115];
    assert_eq!(Scalar::from_u64(0).minus(&Scalar::one()).to_bytes(), minus_one);
    assert_eq!(Scalar::one().negate().to_bytes(), minus_one);
    let m = Scalar::from_bytes(minus_one).unwrap();
    assert_eq!(m.times(&m), Scalar::one());
}

#[test]
fn reference_strings_round_trip() {
    let rng = &mut rng();
    let srs = DKGSRS::setup(rng).unwrap();
    let bytes = srs.to_bytes();
    assert_eq!(bytes.len(), 48 + 96);
    let back = DKGSRS::from_bytes(&bytes).unwrap();
    assert_eq!(back.g_g1, srs.g_g1);
    assert_eq!(back.h_g2, srs.h_g2);
    assert!(DKGSRS::from_bytes(&bytes[..100]).is_none());
    let bls = BLSSRS::<BLSSignatureG1>::setup(rng).unwrap();
    let back = BLSSRS::<BLSSignatureG1>::from_bytes(&bls.to_bytes()).unwrap();
    assert_eq!(back.g_public_key, G2::generator());
    assert_eq!(back.g_signature, G1::generator());
    let schnorr = SchnorrSRS::<G2>::setup(rng).unwrap();
    let back = SchnorrSRS::<G2>::from_bytes(&schnorr.to_bytes()).unwrap();
    assert_eq!(back.g_public_key, G2::generator());
}
