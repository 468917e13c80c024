use pvss_dkg::aggregator::DKGAggregator;
use pvss_dkg::algebra::{pairing_check, G1, G2};
use pvss_dkg::bls::{BLSSignature, BLSSignatureG1, BLSSignatureG2, SRS as BLSSRS};
use pvss_dkg::errors::DKGError;
use pvss_dkg::node::Node;
use pvss_dkg::participant::{Config, Dealer, Participant, ParticipantState, SRS};
use pvss_dkg::scheme::{BatchVerifiableSignatureScheme, SignatureScheme};
use pvss_dkg::schnorr::{SchnorrSignature, SRS as SchnorrSRS};
use pvss_dkg::transcript::{DKGShare, DKGTranscript};
use rand::SeedableRng;
use rand_chacha::ChaCha20Rng;
use std::collections::BTreeMap;

fn rng() -> ChaCha20Rng {
    ChaCha20Rng::from_entropy()
}

fn bls_pair(srs: &SRS) -> (BLSSignature<BLSSignatureG2>, BLSSignature<BLSSignatureG1>) {
    let bls_sig = BLSSignature::<BLSSignatureG1> {
        srs: BLSSRS { g_public_key: srs.h_g2.clone(), g_signature: srs.g_g1.clone() },
    };
    let bls_pok = BLSSignature::<BLSSignatureG2> {
        srs: BLSSRS { g_public_key: srs.g_g1.clone(), g_signature: srs.h_g2.clone() },
    };
    (bls_pok, bls_sig)
}

fn schnorr_pair(srs: &SRS) -> (SchnorrSignature<G1>, SchnorrSignature<G2>) {
    let schnorr_sig = SchnorrSignature::<G2> { srs: SchnorrSRS { g_public_key: srs.h_g2.clone() } };
    let schnorr_pok = SchnorrSignature::<G1> { srs: SchnorrSRS { g_public_key: srs.g_g1.clone() } };
    (schnorr_pok, schnorr_sig)
}

fn make_dealers<SSIG: SignatureScheme<PublicKey = G2>>(
    ssig: &SSIG,
    n: usize,
    rng: &mut ChaCha20Rng,
) -> Vec<Dealer> {
    let mut dealers = vec![];
    for i in 0..n {
        let keypair = ssig.generate_keypair(rng).unwrap();
        let participant =
            Participant { id: i, public_key_sig: keypair.1, state: ParticipantState::Dealer };
        dealers.push(Dealer {
            private_key_sig: keypair.0,
            accumulated_secret: G2::identity(),
            participant,
        });
    }
    dealers
}

fn roster(dealers: &[Dealer]) -> BTreeMap<usize, Participant> {
    dealers.iter().map(|d| d.participant.clone()).enumerate().collect()
}

fn make_node<
    SPOK: BatchVerifiableSignatureScheme<PublicKey = G1> + Clone,
    SSIG: BatchVerifiableSignatureScheme<PublicKey = G2> + Clone,
>(
    config: &Config,
    spok: &SPOK,
    ssig: &SSIG,
    dealers: &[Dealer],
    i: usize,
) -> Node<SPOK, SSIG> {
    let participants = roster(dealers);
    let n = participants.len();
    Node {
        aggregator: DKGAggregator {
            config: config.clone(),
            scheme_pok: spok.clone(),
            scheme_sig: ssig.clone(),
            participants,
            transcript: DKGTranscript::empty(config.degree, n),
        },
        dealer: dealers[i].clone(),
    }
}

fn nodes_and_aggregator<
    SPOK: BatchVerifiableSignatureScheme<PublicKey = G1> + Clone,
    SSIG: BatchVerifiableSignatureScheme<PublicKey = G2> + Clone,
>(
    srs: SRS,
    spok: SPOK,
    ssig: SSIG,
) {
    const NODES: usize = 4;
    let rng = &mut rng();
    let u_1 = G2::random(rng);
    let config = Config { srs: srs.clone(), u_1, degree: 2 };
    let dealers = make_dealers(&ssig, NODES, rng);
    let participants = roster(&dealers);
    let mut aggregator = DKGAggregator {
        config: config.clone(),
        scheme_pok: spok.clone(),
        scheme_sig: ssig.clone(),
        participants: participants.clone(),
        transcript: DKGTranscript::empty(config.degree, NODES),
    };
    let mut nodes: Vec<Node<SPOK, SSIG>> =
        (0..NODES).map(|i| make_node(&config, &spok, &ssig, &dealers, i)).collect();
    // Participant 0 gets weight 2; participant 1's share is spoiled and ignored.
    for i in 0..NODES {
        let mut share = nodes[i].share(rng).unwrap();
        for j in 0..NODES {
            if i == 1 {
                share.c_i = G1::random(rng);
            }
            nodes[j].receive_share_and_decrypt(rng, share.clone()).unwrap();
            if i == 0 {
                nodes[j].receive_share_and_decrypt(rng, share.clone()).unwrap();
            }
        }
        if i != 1 {
            aggregator.receive_share(rng, &share.clone()).unwrap();
            if i == 0 {
                aggregator.receive_share(rng, &share.clone()).unwrap();
            }
        } else {
            aggregator.receive_share(rng, &share.clone()).unwrap_err();
        }
    }
    let transcript = aggregator.transcript;
    for i in 0..NODES {
        let mut node = make_node(&config, &spok, &ssig, &dealers, i);
        node.receive_transcript_and_decrypt(rng, transcript.clone()).unwrap();
        assert_eq!(node.dealer.accumulated_secret, nodes[i].dealer.accumulated_secret);
        if i == 0 {
            assert_eq!(transcript.contributions[&i].weight, 2);
        } else if i == 1 {
            assert!(transcript.contributions.get(&i).is_none());
        } else {
            assert_eq!(transcript.contributions[&i].weight, 1);
        }
    }
}

#[test]
fn test_one() {
    let rng = &mut rng();
    let srs = SRS::setup(rng).unwrap();
    let (bls_pok, bls_sig) = bls_pair(&srs);
    let dealers = make_dealers(&bls_sig, 1, rng);
    let u_1 = G2::random(rng);
    let config = Config { srs: srs.clone(), u_1, degree: 10 };
    let mut node = make_node(&config, &bls_pok, &bls_sig, &dealers, 0);
    node.share(rng).unwrap();
}

#[test]
fn test_2_nodes_verify() {
    const NODES: usize = 4;
    let rng = &mut rng();
    let srs = SRS::setup(rng).unwrap();
    let (bls_pok, bls_sig) = bls_pair(&srs);
    let u_1 = G2::random(rng);
    let config = Config { srs: srs.clone(), u_1, degree: 2 };
    let dealers = make_dealers(&bls_sig, NODES, rng);
    let mut nodes: Vec<_> =
        (0..NODES).map(|i| make_node(&config, &bls_pok, &bls_sig, &dealers, i)).collect();
    for i in 0..NODES {
        let share = nodes[i].share(rng).unwrap();
        for j in 0..NODES {
            nodes[j].receive_share_and_decrypt(rng, share.clone()).unwrap();
        }
    }
}

#[test]
fn test_2_nodes_and_aggregator_bls() {
    let rng = &mut rng();
    let srs = SRS::setup(rng).unwrap();
    let (bls_pok, bls_sig) = bls_pair(&srs);
    nodes_and_aggregator(srs, bls_pok, bls_sig);
}

#[test]
fn test_2_nodes_and_aggregator_schnorr() {
    let rng = &mut rng();
    let srs = SRS::setup(rng).unwrap();
    let (schnorr_pok, schnorr_sig) = schnorr_pair(&srs);
    nodes_and_aggregator(srs, schnorr_pok, schnorr_sig);
}

#[test]
fn single_node_happy_path() {
    let rng = &mut rng();
    let srs = SRS::setup(rng).unwrap();
    let (bls_pok, bls_sig) = bls_pair(&srs);
    let dealers = make_dealers(&bls_sig, 1, rng);
    let u_1 = G2::random(rng);
    let config = Config { srs: srs.clone(), u_1, degree: 0 };
    let mut node = make_node(&config, &bls_pok, &bls_sig, &dealers, 0);
    let (share, secrets) = node.share_pvss(rng).unwrap();
    assert_eq!(share.f_i.len(), 0);
    assert_eq!(share.a_i.len(), 1);
    assert_eq!(share.y_i.len(), 1);
    // With one point the only evaluation is f_0 itself.
    assert_eq!(secrets.my_secret, srs.h_g2.times(&secrets.f_0));
    let dkg_share = node.share(rng).unwrap();
    assert_eq!(node.dealer.participant.state, ParticipantState::DealerShared);
    node.aggregator.receive_share(rng, &dkg_share).unwrap();
    assert_eq!(node.aggregator.transcript.contributions.len(), 1);
    assert_eq!(node.aggregator.transcript.contributions[&0].weight, 1);
    let transcript = node.aggregator.transcript.clone();
    let mut fresh = make_node(&config, &bls_pok, &bls_sig, &dealers, 0);
    fresh.receive_transcript_and_decrypt(rng, transcript).unwrap();
    assert_eq!(fresh.aggregator.participants[&0].state, ParticipantState::Verified);
    let seat = dkg_share.pvss_share.y_i[0].times(&dealers[0].private_key_sig.inverse().unwrap());
    assert_eq!(fresh.dealer.accumulated_secret, G2::identity().plus(&seat));
    // e(g, accumulated) == e(c_i, h), that is accumulated == h * f_0.
    let pairs = vec![
        (srs.g_g1.clone(), fresh.dealer.accumulated_secret.clone()),
        (dkg_share.c_i.negate(), srs.h_g2.clone()),
    ];
    assert!(pairing_check(&pairs));
}

#[test]
fn four_node_transcripts_agree() {
    const NODES: usize = 4;
    let rng = &mut rng();
    let srs = SRS::setup(rng).unwrap();
    let (bls_pok, bls_sig) = bls_pair(&srs);
    let u_1 = G2::random(rng);
    let config = Config { srs: srs.clone(), u_1, degree: 2 };
    let dealers = make_dealers(&bls_sig, NODES, rng);
    let mut nodes: Vec<_> =
        (0..NODES).map(|i| make_node(&config, &bls_pok, &bls_sig, &dealers, i)).collect();
    let mut shares = vec![];
    for i in 0..NODES {
        shares.push(nodes[i].share(rng).unwrap());
    }
    for j in 0..NODES {
        for share in shares.iter() {
            nodes[j].receive_share_and_decrypt(rng, share.clone()).unwrap();
        }
    }
    for j in 1..NODES {
        let a = &nodes[0].aggregator.transcript;
        let b = &nodes[j].aggregator.transcript;
        assert_eq!(a.pvss_share.a_i, b.pvss_share.a_i);
        assert_eq!(a.pvss_share.y_i, b.pvss_share.y_i);
        assert_eq!(a.pvss_share.f_i, b.pvss_share.f_i);
        assert_eq!(a.pvss_share.u_i_2, b.pvss_share.u_i_2);
        assert_eq!(a.contributions.len(), NODES);
        for (id, entry) in a.contributions.iter() {
            assert_eq!(entry.c_i, b.contributions[id].c_i);
            assert_eq!(entry.weight, 1);
        }
    }
    let transcript = nodes[0].aggregator.transcript.clone();
    for i in 0..NODES {
        let mut node = make_node(&config, &bls_pok, &bls_sig, &dealers, i);
        node.receive_transcript_and_decrypt(rng, transcript.clone()).unwrap();
        for k in 0..NODES {
            assert_eq!(node.aggregator.participants[&k].state, ParticipantState::Verified);
        }
        assert_eq!(node.dealer.accumulated_secret, nodes[i].dealer.accumulated_secret);
    }
}

#[test]
fn domain_must_be_a_power_of_two() {
    let rng = &mut rng();
    let srs = SRS::setup(rng).unwrap();
    let (bls_pok, bls_sig) = bls_pair(&srs);
    let dealers = make_dealers(&bls_sig, 3, rng);
    let u_1 = G2::random(rng);
    let config = Config { srs: srs.clone(), u_1, degree: 1 };
    let mut node = make_node(&config, &bls_pok, &bls_sig, &dealers, 0);
    match node.share(rng) {
        Err(e) => assert_eq!(e, DKGError::EvaluationDomainError),
        Ok(_) => panic!("a roster of three was dealt to"),
    }
    assert_eq!(node.dealer.participant.state, ParticipantState::Dealer);
}

#[test]
fn tampered_share_is_rejected() {
    let rng = &mut rng();
    let srs = SRS::setup(rng).unwrap();
    let (bls_pok, bls_sig) = bls_pair(&srs);
    let dealers = make_dealers(&bls_sig, 2, rng);
    let u_1 = G2::random(rng);
    let config = Config { srs: srs.clone(), u_1, degree: 1 };
    let mut node = make_node(&config, &bls_pok, &bls_sig, &dealers, 0);
    let share = node.share(rng).unwrap();
    let mut aggregator = make_node(&config, &bls_pok, &bls_sig, &dealers, 1).aggregator;
    aggregator.share_verify(rng, &share).unwrap();
    let mut bad = share.clone();
    bad.pvss_share.y_i[1] = G2::random(rng);
    assert_eq!(aggregator.share_verify(rng, &bad).unwrap_err(), DKGError::RatioIncorrect);
    let mut bad = share.clone();
    bad.pvss_share.u_i_2 = G2::random(rng);
    assert_eq!(aggregator.share_verify(rng, &bad).unwrap_err(), DKGError::RatioIncorrect);
    let mut bad = share.clone();
    bad.pvss_share.a_i[0] = G1::random(rng);
    assert!(matches!(
        aggregator.share_verify(rng, &bad).unwrap_err(),
        DKGError::EvaluationsCheckError(_)
    ));
    let mut bad = share.clone();
    bad.participant_id = 7;
    assert_eq!(aggregator.share_verify(rng, &bad).unwrap_err(), DKGError::InvalidParticipantId(7));
    let mut bad = share.clone();
    bad.signature_on_c_i = G1::random(rng);
    assert!(matches!(aggregator.share_verify(rng, &bad).unwrap_err(), DKGError::SignatureError(_)));
    let mut bad = share.clone();
    bad.c_i_pok = G2::random(rng);
    assert!(matches!(aggregator.share_verify(rng, &bad).unwrap_err(), DKGError::SignatureError(_)));
    let before = aggregator.transcript.contributions.len();
    aggregator.receive_share(rng, &bad).unwrap_err();
    assert_eq!(aggregator.transcript.contributions.len(), before);
}

#[test]
fn transcript_with_unknown_participant_is_rejected() {
    let rng = &mut rng();
    let srs = SRS::setup(rng).unwrap();
    let (bls_pok, bls_sig) = bls_pair(&srs);
    let dealers = make_dealers(&bls_sig, 2, rng);
    let u_1 = G2::random(rng);
    let config = Config { srs: srs.clone(), u_1, degree: 1 };
    let mut node = make_node(&config, &bls_pok, &bls_sig, &dealers, 0);
    let share = node.share(rng).unwrap();
    node.aggregator.receive_share(rng, &share).unwrap();
    let mut transcript = node.aggregator.transcript.clone();
    let entry = transcript.contributions[&0].clone();
    transcript.contributions.insert(5, entry);
    let mut other = make_node(&config, &bls_pok, &bls_sig, &dealers, 1);
    assert_eq!(
        other.receive_transcript_and_decrypt(rng, transcript).unwrap_err(),
        DKGError::InvalidParticipantId(5)
    );
    assert_eq!(other.dealer.accumulated_secret, G2::identity());
}

#[test]
fn summed_shares_verify_against_summed_commitments() {
    let rng = &mut rng();
    let srs = SRS::setup(rng).unwrap();
    let (schnorr_pok, schnorr_sig) = schnorr_pair(&srs);
    let dealers = make_dealers(&schnorr_sig, 4, rng);
    let u_1 = G2::random(rng);
    let config = Config { srs: srs.clone(), u_1, degree: 3 };
    let mut shares = vec![];
    for i in 0..3 {
        let mut node = make_node(&config, &schnorr_pok, &schnorr_sig, &dealers, i);
        shares.push(node.share(rng).unwrap());
    }
    let aggregator = make_node(&config, &schnorr_pok, &schnorr_sig, &dealers, 3).aggregator;
    let mut sum = shares[0].pvss_share.clone();
    let mut c = shares[0].c_i.clone();
    for s in shares.iter().skip(1) {
        sum = sum.aggregate(&s.pvss_share);
        c = c.plus(&s.c_i);
    }
    aggregator.pvss_share_verify(rng, &c, &sum).unwrap();
    assert!(aggregator.pvss_share_verify(rng, &shares[0].c_i, &sum).is_err());
}

#[test]
fn wire_encodings_round_trip() {
    let rng = &mut rng();
    let srs = SRS::setup(rng).unwrap();
    let (schnorr_pok, schnorr_sig) = schnorr_pair(&srs);
    let dealers = make_dealers(&schnorr_sig, 2, rng);
    let u_1 = G2::random(rng);
    let config = Config { srs: srs.clone(), u_1, degree: 1 };
    let mut node = make_node(&config, &schnorr_pok, &schnorr_sig, &dealers, 1);
    let share = node.share(rng).unwrap();
    let bytes = share.to_bytes();
    let back = DKGShare::<SchnorrSignature<G1>, SchnorrSignature<G2>>::from_bytes(&bytes).unwrap();
    assert_eq!(back.participant_id, 1);
    assert_eq!(back.c_i, share.c_i);
    assert_eq!(back.c_i_pok, share.c_i_pok);
    assert_eq!(back.signature_on_c_i, share.signature_on_c_i);
    assert_eq!(back.pvss_share.y_i, share.pvss_share.y_i);
    node.aggregator.receive_share(rng, &back).unwrap();
    node.aggregator.receive_share(rng, &back).unwrap();
    let transcript = node.aggregator.transcript.clone();
    let bytes = transcript.to_bytes();
    let back = DKGTranscript::<SchnorrSignature<G1>, SchnorrSignature<G2>>::from_bytes(&bytes).unwrap();
    assert_eq!(back.degree, 1);
    assert_eq!(back.num_participants, 2);
    assert_eq!(back.contributions.len(), 1);
    assert_eq!(back.contributions[&1].weight, 2);
    assert_eq!(back.contributions[&1].c_i, share.c_i);
    assert_eq!(back.pvss_share.a_i, transcript.pvss_share.a_i);
    assert_eq!(back.to_bytes(), bytes);
    assert!(DKGTranscript::<SchnorrSignature<G1>, SchnorrSignature<G2>>::from_bytes(&bytes[..bytes.len() - 3]).is_none());
}

#[test]
fn transcript_ids_must_ascend_on_the_wire() {
    let rng = &mut rng();
    let srs = SRS::setup(rng).unwrap();
    let (bls_pok, bls_sig) = bls_pair(&srs);
    let dealers = make_dealers(&bls_sig, 2, rng);
    let u_1 = G2::random(rng);
    let config = Config { srs: srs.clone(), u_1, degree: 1 };
    let mut shares = vec![];
    for i in 0..2 {
        let mut node = make_node(&config, &bls_pok, &bls_sig, &dealers, i);
        shares.push(node.share(rng).unwrap());
    }
    let mut aggregator = make_node(&config, &bls_pok, &bls_sig, &dealers, 0).aggregator;
    aggregator.receive_share(rng, &shares[0]).unwrap();
    aggregator.receive_share(rng, &shares[1]).unwrap();
    let bytes = aggregator.transcript.to_bytes();
    // degree, participants, count, then entries of 8 + 48 + 8 + 96 + 48 bytes.
    let entry = 8 + 48 + 8 + 96 + 48;
    assert_eq!(&bytes[16..24], &[2u8, 0, 0, 0, 0, 0, 0, 0]);
    let mut swapped = bytes[..24].to_vec();
    swapped.extend_from_slice(&bytes[24 + entry..24 + 2 * entry]);
    swapped.extend_from_slice(&bytes[24..24 + entry]);
    swapped.extend_from_slice(&bytes[24 + 2 * entry..]);
    assert!(DKGTranscript::<BLSSignature<BLSSignatureG2>, BLSSignature<BLSSignatureG1>>::from_bytes(&swapped).is_none());
    let back = DKGTranscript::<BLSSignature<BLSSignatureG2>, BLSSignature<BLSSignatureG1>>::from_bytes(&bytes).unwrap();
    assert_eq!(back.contributions.len(), 2);
}

#[test]
fn share_lengths_must_match_the_roster() {
    let rng = &mut rng();
    let srs = SRS::setup(rng).unwrap();
    let (bls_pok, bls_sig) = bls_pair(&srs);
    let dealers = make_dealers(&bls_sig, 4, rng);
    let u_1 = G2::random(rng);
    let config = Config { srs: srs.clone(), u_1, degree: 2 };
    let mut node = make_node(&config, &bls_pok, &bls_sig, &dealers, 0);
    let share = node.share(rng).unwrap();
    let mut aggregator = make_node(&config, &bls_pok, &bls_sig, &dealers, 1).aggregator;
    let mut bad = share.clone();
    bad.pvss_share.y_i.pop();
    assert_eq!(
        aggregator.share_verify(rng, &bad).unwrap_err(),
        DKGError::ShareLengthsIncorrect(2, 4, 3)
    );
    let mut bad = share.clone();
    bad.pvss_share.f_i.push(G1::random(rng));
    assert_eq!(
        aggregator.share_verify(rng, &bad).unwrap_err(),
        DKGError::ShareLengthsIncorrect(3, 4, 4)
    );
    aggregator.receive_share(rng, &share).unwrap();
    let mut conflicting = node.share(rng).unwrap();
    conflicting.participant_id = 0;
    assert_eq!(
        aggregator.receive_share(rng, &conflicting).unwrap_err(),
        DKGError::TranscriptDifferentCommitments
    );
    assert_eq!(aggregator.transcript.contributions[&0].weight, 1);
}

#[test]
fn dealing_reports_roster_gaps_and_outsiders() {
    let rng = &mut rng();
    let srs = SRS::setup(rng).unwrap();
    let (bls_pok, bls_sig) = bls_pair(&srs);
    let dealers = make_dealers(&bls_sig, 2, rng);
    let u_1 = G2::random(rng);
    let config = Config { srs: srs.clone(), u_1, degree: 1 };
    let mut node = make_node(&config, &bls_pok, &bls_sig, &dealers, 0);
    let p = node.aggregator.participants.remove(&1).unwrap();
    node.aggregator.participants.insert(5, p);
    match node.share(rng) {
        Err(e) => assert_eq!(e, DKGError::InvalidParticipantId(1)),
        Ok(_) => panic!("a roster with a gap was dealt to"),
    }
    let mut outsider = make_node(&config, &bls_pok, &bls_sig, &dealers, 0);
    outsider.dealer.participant.id = 2;
    match outsider.share(rng) {
        Err(e) => assert_eq!(e, DKGError::InvalidParticipantId(2)),
        Ok(_) => panic!("a dealer outside the roster dealt"),
    }
}

#[test]
fn changed_weight_fails_the_public_share_check() {
    let rng = &mut rng();
    let srs = SRS::setup(rng).unwrap();
    let (bls_pok, bls_sig) = bls_pair(&srs);
    let dealers = make_dealers(&bls_sig, 2, rng);
    let u_1 = G2::random(rng);
    let config = Config { srs: srs.clone(), u_1, degree: 1 };
    let mut aggregator = make_node(&config, &bls_pok, &bls_sig, &dealers, 0).aggregator;
    for i in 0..2 {
        let mut node = make_node(&config, &bls_pok, &bls_sig, &dealers, i);
        let share = node.share(rng).unwrap();
        aggregator.receive_share(rng, &share).unwrap();
    }
    let transcript = aggregator.transcript.clone();
    aggregator.receive_transcript(rng, &transcript).unwrap();
    let mut changed = transcript.clone();
    changed.contributions.get_mut(&1).unwrap().weight = 3;
    assert!(matches!(
        aggregator.receive_transcript(rng, &changed).unwrap_err(),
        DKGError::EvaluationsCheckError(_)
    ));
}
