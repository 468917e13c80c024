//! The dealing and participating role: deals a share, and decrypts its own
//! seat from accepted shares and transcripts.
use vstd::prelude::*;

use crate::aggregator::{evaluation_domain, sorted_entries, DKGAggregator};
use crate::algebra::{
    domain_exists, fft, fft_evaluations, fr_inverse, fr_of_u64, g1_scaled, g2_scaled, g2_sum, scalars_view,
    Scalar, G1, G2,
};
use crate::errors::{DKGError, SignatureError};
use crate::participant::{Config, Dealer, Participant, ParticipantState};
use crate::pvss::{PVSSShare, PVSSShareSecrets};
use crate::scheme::BatchVerifiableSignatureScheme;
use crate::transcript::{message_from_c_i, DKGShare, DKGTranscript, EntryView};
use rand_chacha::ChaCha20Rng;
use std::collections::BTreeMap;
use vstd::std_specs::btree::spec_btree_map_iter;
use vstd::std_specs::iter::IteratorSpec;

verus! {

broadcast use {vstd::laws_cmp::group_laws_cmp, vstd::std_specs::btree::group_btree_axioms};

/// The share that the coefficients `f` deal: commitments to `f[1..=t]`, the
/// commitment to `f[0]` under `u_1`, and the committed and encrypted
/// evaluations over the domain of `n` points.
pub open spec fn dealt_share(
    config: &Config,
    roster: Map<usize, Participant>,
    n: nat,
    f: Seq<Seq<u8>>,
    share: (Seq<Seq<u8>>, Seq<u8>, Seq<Seq<u8>>, Seq<Seq<u8>>),
) -> bool {
    let y = fft_evaluations(n, f);
    let g = config.srs.g_g1@;
    &&& share.0 == Seq::new(config.degree as nat, |k: int| g1_scaled(g, f[k + 1]))
    &&& share.1 == g2_scaled(config.u_1@, f[0])
    &&& share.2 == Seq::new(n, |k: int| g1_scaled(g, y[k]))
    &&& share.3 == Seq::new(n, |k: int| g2_scaled(roster[k as usize].public_key_sig@, y[k]))
}

/// Marks the roster entry `id` as verified.
fn mark_verified(participants: &mut BTreeMap<usize, Participant>, id: usize) -> (r: Result<
    (),
    DKGError,
>)
    ensures
        !old(participants)@.contains_key(id) ==> r == Err::<(), DKGError>(
            DKGError::InvalidParticipantId(id),
        ) && final(participants)@ == old(participants)@,
        old(participants)@.contains_key(id) ==> r.is_ok() && verified_at(
            old(participants)@,
            final(participants)@,
            id,
        ),
{
    let p = match participants.get(&id) {
        Some(p) => p,
        None => return Err(DKGError::InvalidParticipantId(id)),
    };
    let mut q = p.clone();
    q.state = ParticipantState::Verified;
    participants.insert(id, q);
    assert(participants@.dom() =~= old(participants)@.dom());
    Ok(())
}

/// `new` is `old` with entry `id` marked verified.
pub open spec fn verified_at(old: Map<usize, Participant>, new: Map<usize, Participant>, id: usize) -> bool {
    &&& new.dom() == old.dom()
    &&& forall|k: usize| k != id && #[trigger] old.contains_key(k) ==> new[k] == old[k]
    &&& new[id].state == ParticipantState::Verified
    &&& new[id].id == old[id].id
    &&& new[id].public_key_sig@ == old[id].public_key_sig@
}

/// `new` is `old` with every entry whose id is in `ids` marked verified.
pub open spec fn verified_all(old: Map<usize, Participant>, new: Map<usize, Participant>, ids: Set<usize>) -> bool {
    &&& new.dom() == old.dom()
    &&& forall|k: usize|
        #[trigger] old.contains_key(k) ==> if ids.contains(k) {
            &&& new[k].state == ParticipantState::Verified
            &&& new[k].id == old[k].id
            &&& new[k].public_key_sig@ == old[k].public_key_sig@
        } else {
            new[k] == old[k]
        }
}

/// The ids of the first `n` listed pairs.
pub open spec fn listed_ids<V>(s: Seq<(&usize, V)>, n: int) -> Set<usize> {
    Set::new(|k: usize| exists|j: int| 0 <= j < n && *s[j].0 == k)
}

/// `k` is the first index below `n` that the roster lacks.
pub open spec fn least_missing(roster: Map<usize, Participant>, n: nat, k: usize) -> bool {
    &&& k < n
    &&& !roster.contains_key(k)
    &&& forall|j: usize| j < k ==> #[trigger] roster.contains_key(j)
}

/// A node: the aggregator it verifies with, and its dealer.
pub struct Node<
    SPOK: BatchVerifiableSignatureScheme<PublicKey = G1>,
    SSIG: BatchVerifiableSignatureScheme<PublicKey = G2>,
> {
    pub aggregator: DKGAggregator<SPOK, SSIG>,
    pub dealer: Dealer,
}

impl<
    SPOK: BatchVerifiableSignatureScheme<PublicKey = G1>,
    SSIG: BatchVerifiableSignatureScheme<PublicKey = G2>,
> Node<SPOK, SSIG> {
    /// Why dealing fails, if it does: no evaluation domain for the roster,
    /// a gap in the roster, or a dealer outside it.
    pub open spec fn deal_error(&self) -> Option<DKGError> {
        let roster = self.aggregator.participants@;
        let n = roster.len();
        if !domain_exists(n) {
            Some(DKGError::EvaluationDomainError)
        } else if exists|k: usize| least_missing(roster, n, k) {
            Some(DKGError::InvalidParticipantId(choose|k: usize| least_missing(roster, n, k)))
        } else if self.dealer.participant.id >= n {
            Some(DKGError::InvalidParticipantId(self.dealer.participant.id))
        } else {
            None
        }
    }

    /// `share` and `secrets` are what the coefficients `f` deal: the public
    /// share, the secret coefficient, and the dealer's own seat
    /// `h * y_eval[id]`.
    pub open spec fn dealt(
        &self,
        f: Seq<Seq<u8>>,
        share: (Seq<Seq<u8>>, Seq<u8>, Seq<Seq<u8>>, Seq<Seq<u8>>),
        secrets: &PVSSShareSecrets,
    ) -> bool {
        let roster = self.aggregator.participants@;
        let n = roster.len();
        &&& forall|k: usize| k < n ==> #[trigger] roster.contains_key(k)
        &&& dealt_share(&self.aggregator.config, roster, n, f, share)
        &&& secrets.f_0@ == f[0]
        &&& secrets.my_secret@ == g2_scaled(
            self.aggregator.config.srs.h_g2@,
            fft_evaluations(n, f)[self.dealer.participant.id as int],
        )
    }

    /// A node with an empty transcript.
    pub fn new(
        config: Config,
        scheme_pok: SPOK,
        scheme_sig: SSIG,
        dealer: Dealer,
        participants: BTreeMap<usize, Participant>,
    ) -> (r: Result<Self, DKGError>)
        ensures
            r matches Ok(node) && {
                &&& node.aggregator.transcript.degree == config.degree
                &&& node.aggregator.transcript.num_participants == participants@.len()
                &&& node.aggregator.transcript.contributions@.is_empty()
                &&& node.aggregator.participants == participants
                &&& node.dealer == dealer
                &&& node.aggregator.config == config
            },
    {
        let degree = config.degree;
        let num_participants = participants.len();
        let transcript = DKGTranscript::empty(degree, num_participants);
        Ok(
            Node {
                aggregator: DKGAggregator {
                    config,
                    scheme_pok,
                    scheme_sig,
                    participants,
                    transcript,
                },
                dealer,
            },
        )
    }

    /// Deals the public share of the polynomial with coefficients `f`.
    pub fn share_pvss_with(&self, f: &Vec<Scalar>) -> (r: Result<
        (PVSSShare, PVSSShareSecrets),
        DKGError,
    >)
        requires
            f.len() == self.aggregator.config.degree + 1,
        ensures
            match self.deal_error() {
                Some(e) => r == Err::<(PVSSShare, PVSSShareSecrets), DKGError>(e),
                None => r matches Ok((share, secrets)) && self.dealt(scalars_view(f@), share@, &secrets),
            },
    {
        let ghost roster = self.aggregator.participants@;
        let num = self.aggregator.participants.len();
        let size = match evaluation_domain(num) {
            Ok(s) => s,
            Err(e) => return Err(e),
        };
        let y_eval = fft(size, f);
        let ghost y = fft_evaluations(size as nat, scalars_view(f@));
        let degree = self.aggregator.config.degree;
        let g = &self.aggregator.config.srs.g_g1;
        let mut f_i: Vec<G1> = Vec::new();
        let mut k: usize = 0;
        while k < degree
            invariant
                k <= degree,
                f.len() == degree + 1,
                f_i.len() == k,
                g == &self.aggregator.config.srs.g_g1,
                forall|j: int| 0 <= j < k ==> #[trigger] f_i@[j]@ == g1_scaled(g@, f@[j + 1]@),
            decreases degree - k,
        {
            f_i.push(g.times(&f[k + 1]));
            k += 1;
        }
        let u_i_2 = self.aggregator.config.u_1.times(&f[0]);
        let mut a_i: Vec<G1> = Vec::new();
        let mut y_i: Vec<G2> = Vec::new();
        k = 0;
        while k < size
            invariant
                k <= size,
                size == num,
                num == roster.len(),
                roster == self.aggregator.participants@,
                y_eval.len() == size,
                domain_exists(roster.len()),
                scalars_view(y_eval@) == y,
                a_i.len() == k,
                y_i.len() == k,
                g == &self.aggregator.config.srs.g_g1,
                forall|j: usize| j < k ==> #[trigger] roster.contains_key(j),
                forall|j: int| 0 <= j < k ==> #[trigger] a_i@[j]@ == g1_scaled(g@, y[j]),
                forall|j: int|
                    0 <= j < k ==> #[trigger] y_i@[j]@ == g2_scaled(
                        roster[j as usize].public_key_sig@,
                        y[j],
                    ),
            decreases size - k,
        {
            assert(y[k as int] == y_eval@[k as int]@);
            let participant = match self.aggregator.participants.get(&k) {
                Some(p) => p,
                None => {
                    proof {
                        assert(!roster.contains_key(k));
                        assert(least_missing(roster, roster.len(), k));
                        let c = choose|c: usize| least_missing(roster, roster.len(), c);
                        if c < k {
                            assert(roster.contains_key(c));
                        } else if c > k {
                            assert(roster.contains_key(k));
                        }
                    }
                    return Err(DKGError::InvalidParticipantId(k));
                },
            };
            a_i.push(g.times(&y_eval[k]));
            y_i.push(participant.public_key_sig.times(&y_eval[k]));
            k += 1;
        }
        let id = self.dealer.participant.id;
        proof {
            assert forall|c: usize| !least_missing(roster, roster.len(), c) by {
                if c < roster.len() {
                    assert(roster.contains_key(c));
                }
            }
        }
        if id >= size {
            return Err(DKGError::InvalidParticipantId(id));
        }
        assert(y[id as int] == y_eval@[id as int]@);
        let my_secret = self.aggregator.config.srs.h_g2.times(&y_eval[id]);
        let share = PVSSShare { f_i, u_i_2, a_i, y_i };
        assert(share@.0 =~= Seq::new(degree as nat, |k: int| g1_scaled(g@, scalars_view(f@)[k + 1])));
        assert(share@.2 =~= Seq::new(size as nat, |k: int| g1_scaled(g@, y[k])));
        assert(share@.3 =~= Seq::new(
            size as nat,
            |k: int| g2_scaled(roster[k as usize].public_key_sig@, y[k]),
        ));
        Ok((share, PVSSShareSecrets { f_0: f[0].clone(), my_secret }))
    }

    /// Deals a public share of a polynomial with random coefficients.
    pub fn share_pvss(&mut self, rng: &mut ChaCha20Rng) -> (r: Result<
        (PVSSShare, PVSSShareSecrets),
        DKGError,
    >)
        ensures
            *final(self) == *old(self),
            match old(self).deal_error() {
                Some(e) => r == Err::<(PVSSShare, PVSSShareSecrets), DKGError>(e),
                None => r matches Ok((share, secrets)) && exists|f: Seq<Seq<u8>>|
                    f.len() == old(self).aggregator.config.degree + 1 && old(self).dealt(
                        f,
                        share@,
                        &secrets,
                    ),
            },
    {
        let degree = self.aggregator.config.degree;
        let mut f: Vec<Scalar> = Vec::new();
        f.push(Scalar::random(rng));
        let mut k: usize = 0;
        while k < degree
            invariant
                k <= degree,
                f.len() == k + 1,
            decreases degree - k,
        {
            f.push(Scalar::random(rng));
            k += 1;
        }
        let r = self.share_pvss_with(&f);
        if let Ok((share, secrets)) = &r {
            let ghost fv = scalars_view(f@);
            assert(fv.len() == degree + 1);
            assert(self.dealt(fv, share@, secrets));
        }
        r
    }

    /// Whether this node's seat of `share` decrypts, and the error when it
    /// does not: no seat for its id, or no inverse of its signing secret.
    pub open spec fn seat_outcome(
        &self,
        share: &PVSSShare,
        r: Result<(), DKGError>,
    ) -> bool {
        let id = self.dealer.participant.id;
        if id >= share@.3.len() {
            r == Err::<(), DKGError>(DKGError::InvalidParticipantId(id))
        } else if self.dealer.private_key_sig@ == fr_of_u64(0) {
            r == Err::<(), DKGError>(
                DKGError::SignatureError(SignatureError::SignatureDoesNotHaveInverse),
            )
        } else {
            r.is_ok()
        }
    }

    /// This node's seat of a public share: its encrypted evaluation
    /// multiplied by the inverse of its signing secret.
    pub fn decrypt_seat(&self, share: &PVSSShare) -> (r: Result<G2, DKGError>)
        ensures
            ({
                let id = self.dealer.participant.id;
                match r {
                    Ok(s) => id < share@.3.len() && self.dealer.private_key_sig@ != fr_of_u64(0) && (fr_inverse(self.dealer.private_key_sig@) matches Some(
                        inv,
                    ) && s@ == g2_scaled(share@.3[id as int], inv)),
                    Err(e) => (id >= share@.3.len() && e == DKGError::InvalidParticipantId(id)) || (
                    id < share@.3.len() && self.dealer.private_key_sig@ == fr_of_u64(0) && e
                        == DKGError::SignatureError(SignatureError::SignatureDoesNotHaveInverse)),
                }
            }),
    {
        let id = self.dealer.participant.id;
        if id >= share.y_i.len() {
            return Err(DKGError::InvalidParticipantId(id));
        }
        let inv = match self.dealer.private_key_sig.inverse() {
            Some(k) => k,
            None => return Err(
                DKGError::from_signature(SignatureError::SignatureDoesNotHaveInverse),
            ),
        };
        Ok(share.y_i[id].times(&inv))
    }

    /// What receiving `share` with the challenge `alpha` does to the node:
    /// when the aggregator accepts it, the transcript folds it in and, when
    /// this node's seat decrypts, the seat is added to the accumulated secret
    /// and the dealer is marked verified; otherwise nothing changes.
    pub open spec fn share_decrypted(&self, new: &Self, alpha: Seq<u8>, share: &DKGShare<SPOK, SSIG>) -> bool {
        let id = self.dealer.participant.id;
        let y = share.pvss_share@.3;
        &&& new.aggregator.config == self.aggregator.config
        &&& new.aggregator.scheme_pok == self.aggregator.scheme_pok
        &&& new.aggregator.scheme_sig == self.aggregator.scheme_sig
        &&& new.dealer.private_key_sig == self.dealer.private_key_sig
        &&& new.dealer.participant == self.dealer.participant
        &&& if self.aggregator.accepts(alpha, share) {
            &&& self.aggregator.folds(&new.aggregator.transcript, share)
            &&& if id < y.len() && self.dealer.private_key_sig@ != fr_of_u64(0) {
                &&& new.dealer.accumulated_secret@ == g2_sum(
                    self.dealer.accumulated_secret@,
                    g2_scaled(y[id as int], fr_inverse(self.dealer.private_key_sig@).unwrap()),
                )
                &&& verified_at(
                    self.aggregator.participants@,
                    new.aggregator.participants@,
                    share.participant_id,
                )
            } else {
                &&& new.dealer.accumulated_secret == self.dealer.accumulated_secret
                &&& new.aggregator.participants == self.aggregator.participants
            }
        } else {
            &&& new.aggregator.transcript == self.aggregator.transcript
            &&& new.aggregator.participants == self.aggregator.participants
            &&& new.dealer.accumulated_secret == self.dealer.accumulated_secret
        }
    }

    /// Receives a share, checked with the challenge `alpha`; a rejected
    /// share is dropped without a trace.
    pub fn receive_share_and_decrypt_with(&mut self, alpha: &Scalar, share: DKGShare<SPOK, SSIG>) -> (r:
        Result<(), DKGError>)
        requires
            old(self).aggregator.transcript.entries().contains_key(share.participant_id) ==> old(
                self,
            ).aggregator.transcript.entries()[share.participant_id].1 < u64::MAX,
        ensures
            r.is_ok(),
            old(self).share_decrypted(final(self), alpha@, &share),
    {
        let participant_id = share.participant_id;
        match self.aggregator.receive_share_with(alpha, &share) {
            Ok(()) => {
                match self.decrypt_seat(&share.pvss_share) {
                    Ok(secret) => {
                        self.dealer.accumulated_secret = self.dealer.accumulated_secret.plus(
                            &secret,
                        );
                        match mark_verified(&mut self.aggregator.participants, participant_id) {
                            Ok(()) => {},
                            Err(e) => return Err(e),
                        }
                    },
                    Err(_) => {},
                }
            },
            Err(_) => {},
        }
        Ok(())
    }

    /// Receives a share, checked with a challenge drawn from `rng`. When the
    /// aggregator accepts it and this node's seat decrypts, the seat is added
    /// to the accumulated secret and the dealer is marked verified; a
    /// rejected share is dropped without a trace.
    pub fn receive_share_and_decrypt(
        &mut self,
        rng: &mut ChaCha20Rng,
        share: DKGShare<SPOK, SSIG>,
    ) -> (r: Result<(), DKGError>)
        requires
            old(self).aggregator.transcript.entries().contains_key(share.participant_id) ==> old(
                self,
            ).aggregator.transcript.entries()[share.participant_id].1 < u64::MAX,
        ensures
            r.is_ok(),
            exists|alpha: Seq<u8>| old(self).share_decrypted(final(self), alpha, &share),
    {
        let alpha = Scalar::random(rng);
        let ghost before = *self;
        let ghost s = share;
        let r = self.receive_share_and_decrypt_with(&alpha, share);
        assert(before.share_decrypted(self, alpha@, &s));
        r
    }

    /// Verifies a whole transcript, adds this node's decrypted seat of its
    /// public share to the accumulated secret, and marks every contributing
    /// dealer verified; on failure nothing changes.
    pub fn receive_transcript_and_decrypt(
        &mut self,
        rng: &mut ChaCha20Rng,
        transcript: DKGTranscript<SPOK, SSIG>,
    ) -> (r: Result<(), DKGError>)
        ensures
            final(self).aggregator.config == old(self).aggregator.config,
            final(self).aggregator.transcript == old(self).aggregator.transcript,
            final(self).dealer.private_key_sig == old(self).dealer.private_key_sig,
            final(self).dealer.participant == old(self).dealer.participant,
            r.is_err() ==> *final(self) == *old(self),
            exists|ra: Result<(), DKGError>|
                {
                    &&& #[trigger] old(self).aggregator.transcript_received(&transcript, ra)
                    &&& ra matches Err(e) ==> r == Err::<(), DKGError>(e)
                    &&& ra.is_ok() ==> old(self).seat_outcome(&transcript.pvss_share, r)
                },
            r.is_ok() ==> old(self).dealer.participant.id < transcript.pvss_share@.3.len(),
            r.is_ok() ==> (fr_inverse(old(self).dealer.private_key_sig@) matches Some(inv)
                && final(self).dealer.accumulated_secret@ == g2_sum(
                old(self).dealer.accumulated_secret@,
                g2_scaled(transcript.pvss_share@.3[old(self).dealer.participant.id as int], inv),
            )),
            r.is_ok() ==> verified_all(
                old(self).aggregator.participants@,
                final(self).aggregator.participants@,
                transcript.entries().dom(),
            ),
    {
        let ghost before = *self;
        let ra = self.aggregator.receive_transcript(rng, &transcript);
        match ra {
            Ok(()) => {},
            Err(e) => {
                assert(before.aggregator.transcript_received(&transcript, ra));
                return Err(e);
            },
        }
        assert(before.aggregator.transcript_received(&transcript, ra));
        let secret = match self.decrypt_seat(&transcript.pvss_share) {
            Ok(s) => s,
            Err(e) => return Err(e),
        };
        let ghost old_roster = self.aggregator.participants@;
        let ghost m = transcript.entries();
        proof {
            assert(m.dom() =~= transcript.contributions@.dom());
            assert forall|k: usize| #[trigger] m.contains_key(k) implies old_roster.contains_key(
                k,
            ) by {
                if !old_roster.contains_key(k) {
                    assert(m.contains_key(k) && !old_roster.contains_key(k));
                }
            }
        }
        let entries_iter = transcript.contributions.iter();
        let ghost full = entries_iter.remaining();
        proof {
            assert(full == spec_btree_map_iter(&transcript.contributions).remaining());
            assert(verified_all(old_roster, self.aggregator.participants@, listed_ids(full, 0))) by {
                assert(self.aggregator.participants@.dom() =~= old_roster.dom());
            }
        }
        for kv in it: entries_iter
            invariant
                it.seq() == full,
                full.len() == m.dom().len(),
                m == transcript.entries(),
                m.dom() == transcript.contributions@.dom(),
                forall|i: int|
                    0 <= i < full.len() ==> transcript.contributions@.contains_key(*full[i].0),
                forall|k: usize|
                    #[trigger] transcript.contributions@.contains_key(k) ==> full.contains(
                        (&k, &transcript.contributions@[k]),
                    ),
                forall|k: usize| #[trigger] m.contains_key(k) ==> old_roster.contains_key(k),
                verified_all(
                    old_roster,
                    self.aggregator.participants@,
                    listed_ids(full, it.index() as int),
                ),
                self.aggregator.config == old(self).aggregator.config,
                self.aggregator.transcript == old(self).aggregator.transcript,
                self.dealer == old(self).dealer,
        {
            let (id, contribution) = kv;
            let ghost idx = it.index() as int;
            let ghost before = self.aggregator.participants@;
            assert(transcript.contributions@.contains_key(*id));
            assert(m.contains_key(*id));
            match mark_verified(&mut self.aggregator.participants, *id) {
                Ok(()) => {},
                Err(e) => return Err(e),
            }
            proof {
                let ids = listed_ids(full, idx + 1);
                assert(ids =~= listed_ids(full, idx).insert(*id));
                assert forall|k: usize| #[trigger] old_roster.contains_key(k) implies if ids.contains(k) {
                    &&& self.aggregator.participants@[k].state == ParticipantState::Verified
                    &&& self.aggregator.participants@[k].id == old_roster[k].id
                    &&& self.aggregator.participants@[k].public_key_sig@ == old_roster[k].public_key_sig@
                } else {
                    self.aggregator.participants@[k] == old_roster[k]
                } by {
                    if k != *id {
                        assert(before.contains_key(k));
                    }
                }
            }
        }
        proof {
            assert(listed_ids(full, full.len() as int) =~= m.dom()) by {
                assert forall|k: usize| m.dom().contains(k) implies listed_ids(
                    full,
                    full.len() as int,
                ).contains(k) by {
                    assert(transcript.contributions@.contains_key(k));
                    assert(full.contains((&k, &transcript.contributions@[k])));
                    let j = choose|j: int|
                        0 <= j < full.len() && full[j] == (&k, &transcript.contributions@[k]);
                    assert(*full[j].0 == k);
                }
            }
        }
        self.dealer.accumulated_secret = self.dealer.accumulated_secret.plus(&secret);
        Ok(())
    }

    /// Deals a share: the public share, the commitment `c_i = g * f_0`, a
    /// proof of knowledge of `f_0` and the dealer's signature on `c_i`.
    pub fn share(&mut self, rng: &mut ChaCha20Rng) -> (r: Result<DKGShare<SPOK, SSIG>, DKGError>)
        ensures
            final(self).aggregator == old(self).aggregator,
            final(self).dealer.private_key_sig == old(self).dealer.private_key_sig,
            final(self).dealer.accumulated_secret == old(self).dealer.accumulated_secret,
            final(self).dealer.participant.id == old(self).dealer.participant.id,
            final(self).dealer.participant.public_key_sig == old(
                self,
            ).dealer.participant.public_key_sig,
            r.is_ok() ==> final(self).dealer.participant.state == ParticipantState::DealerShared,
            r.is_err() ==> final(self).dealer.participant.state == old(
                self,
            ).dealer.participant.state,
            match old(self).deal_error() {
                Some(e) => r == Err::<DKGShare<SPOK, SSIG>, DKGError>(e),
                None => r.is_ok() || r == Err::<DKGShare<SPOK, SSIG>, DKGError>(
                    DKGError::SignatureError(SignatureError::HashAttemptsExhausted),
                ),
            },
            r matches Ok(s) ==> {
                let config = &old(self).aggregator.config;
                let roster = old(self).aggregator.participants@;
                &&& s.participant_id == old(self).dealer.participant.id
                &&& exists|f: Seq<Seq<u8>>|
                    f.len() == config.degree + 1 && s.c_i@ == g1_scaled(config.srs.g_g1@, f[0])
                        && dealt_share(config, roster, roster.len(), f, s.pvss_share@)
                        && old(self).aggregator.scheme_pok.spec_signed(f[0], s.c_i@, s.c_i_pok@)
                &&& old(self).aggregator.scheme_sig.spec_signed(
                    old(self).dealer.private_key_sig@,
                    s.c_i@,
                    s.signature_on_c_i@,
                )
            },
    {
        let (pvss_share, secrets) = match self.share_pvss(rng) {
            Ok(x) => x,
            Err(e) => return Err(e),
        };
        let c_i = self.aggregator.config.srs.g_g1.times(&secrets.f_0);
        let message = match message_from_c_i(&c_i) {
            Ok(m) => m,
            Err(e) => return Err(e),
        };
        let pok_keypair = match self.aggregator.scheme_pok.from_sk(&secrets.f_0) {
            Ok(kp) => kp,
            Err(e) => return Err(DKGError::from_signature(e)),
        };
        let pok = match self.aggregator.scheme_pok.sign(rng, &pok_keypair.0, message.as_slice()) {
            Ok(s) => s,
            Err(e) => return Err(DKGError::from_signature(e)),
        };
        let signature_keypair = match self.aggregator.scheme_sig.from_sk(
            &self.dealer.private_key_sig,
        ) {
            Ok(kp) => kp,
            Err(e) => return Err(DKGError::from_signature(e)),
        };
        let signature = match self.aggregator.scheme_sig.sign(
            rng,
            &signature_keypair.0,
            message.as_slice(),
        ) {
            Ok(s) => s,
            Err(e) => return Err(DKGError::from_signature(e)),
        };
        let share = DKGShare {
            participant_id: self.dealer.participant.id,
            c_i,
            pvss_share,
            c_i_pok: pok,
            signature_on_c_i: signature,
        };
        self.dealer.participant.state = ParticipantState::DealerShared;
        Ok(share)
    }
}

} // verus!
