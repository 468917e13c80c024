//! The verifying side of the protocol: checks shares and transcripts
//! against the public parameters and the roster, and folds accepted shares
//! into a transcript.
use vstd::prelude::*;

use crate::algebra::{
    domain_exists, fr_negated, fr_of_u64, fr_product, g1_identity, g1_msm, g1_negated, g1_scaled,
    g1_sum,
    is_pow2, lagrange_coefficients, lagrange_coefficients_at, pairing_check,
    pairing_product_is_one, pairs_view, points_view, radix2_domain_size, scalars_view, Scalar, G1,
    G2,
};
use crate::errors::{DKGError, SignatureError};
use crate::participant::{Config, Participant};
use crate::pvss::{append_points, append_scalars, push_point, spec_share_sum, PVSSShare};
use crate::scheme::{
    fr_power, messages_view, signatures_view, BatchVerifiableSignatureScheme,
};
use crate::transcript::{
    commitments_agree, message_from_c_i, spec_merge, DKGShare, DKGTranscript,
    DKGTranscriptParticipant, EntryView,
};
use rand_chacha::ChaCha20Rng;
use std::collections::BTreeMap;
use vstd::std_specs::btree::{increasing_seq, spec_btree_map_iter};
use vstd::std_specs::cmp::OrdSpec;
use vstd::std_specs::iter::IteratorSpec;

verus! {

broadcast use {vstd::laws_cmp::group_laws_cmp, vstd::std_specs::btree::group_btree_axioms};

/// The view of a public share.
pub type ShareView = (Seq<Seq<u8>>, Seq<u8>, Seq<Seq<u8>>, Seq<Seq<u8>>);

/// `-alpha^k`, as the degree check computes it: minus one, multiplied by
/// `alpha` `k` times.
pub open spec fn neg_power(alpha: Seq<u8>, k: nat) -> Seq<u8>
    decreases k,
{
    if k == 0 {
        fr_negated(fr_of_u64(1))
    } else {
        fr_product(neg_power(alpha, (k - 1) as nat), alpha)
    }
}

/// The smaller of two lengths.
pub open spec fn min_len(a: nat, b: nat) -> nat {
    if a <= b {
        a
    } else {
        b
    }
}

/// Bases of the degree check: the evaluations, then the commitments to the
/// coefficients `0..=t`.
pub open spec fn degree_bases(c: Seq<u8>, share: ShareView) -> Seq<Seq<u8>> {
    share.2 + seq![c] + share.0
}

/// Scalars of the degree check: the Lagrange coefficients at `alpha`, then
/// `-alpha^k` for `k` in `0..=t`.
pub open spec fn degree_scalars(n: nat, t: nat, alpha: Seq<u8>) -> Seq<Seq<u8>> {
    lagrange_coefficients_at(n, alpha) + Seq::new(t + 1, |k: int| neg_power(alpha, k as nat))
}

/// The value of the degree check, over as many bases as there are scalars;
/// the identity when the evaluations interpolate the committed polynomial
/// at `alpha`.
pub open spec fn degree_check_value(
    n: nat,
    t: nat,
    alpha: Seq<u8>,
    c: Seq<u8>,
    share: ShareView,
) -> Seq<u8> {
    let b = degree_bases(c, share);
    let s = degree_scalars(n, t, alpha);
    let m = min_len(b.len(), s.len());
    g1_msm(b.take(m as int), s.take(m as int))
}

/// The pairs of the same-ratio check `e(c, u_1) * e(-g, u_i_2) == 1`.
pub open spec fn ratio_pairs(c: Seq<u8>, u_1: Seq<u8>, g: Seq<u8>, share: ShareView) -> Seq<
    (Seq<u8>, Seq<u8>),
> {
    seq![(c, u_1), (g1_negated(g), share.1)]
}

/// How many participants the encryption check covers.
pub open spec fn encryption_len(n: nat, share: ShareView) -> nat {
    min_len(min_len(share.2.len(), n + 1), share.3.len())
}

/// Pair `j` of the encryption check: for participant `i = j / 2`, weighted
/// by `alpha^i`, the pair `(-g, y_i[i])` when `j` is even and
/// `(a_i[i], pk_sig[i])` when odd.
pub open spec fn encryption_pair(
    alpha: Seq<u8>,
    g: Seq<u8>,
    share: ShareView,
    roster: Map<usize, Participant>,
    j: int,
) -> (Seq<u8>, Seq<u8>) {
    let i = j / 2;
    let w = fr_power(alpha, i as nat);
    if j % 2 == 0 {
        (g1_scaled(g1_negated(g), w), share.3[i])
    } else {
        (g1_scaled(share.2[i], w), roster[i as usize].public_key_sig@)
    }
}

/// The pairs of the encryption check.
pub open spec fn encryption_pairs(
    alpha: Seq<u8>,
    g: Seq<u8>,
    share: ShareView,
    roster: Map<usize, Participant>,
    m: nat,
) -> Seq<(Seq<u8>, Seq<u8>)> {
    Seq::new(2 * m, |j: int| encryption_pair(alpha, g, share, roster, j))
}

/// Every participant the encryption check covers is on the roster.
pub open spec fn roster_covers(roster: Map<usize, Participant>, m: nat) -> bool {
    forall|i: usize| i < m ==> #[trigger] roster.contains_key(i)
}

/// The share commits to `t` coefficients and has one evaluation and one
/// encrypted evaluation per participant.
pub open spec fn share_lengths_ok(config: &Config, n: nat, share: ShareView) -> bool {
    &&& share.0.len() == config.degree
    &&& share.2.len() == n
    &&& share.3.len() == n
}

/// All checks on a public share pass with the challenge `alpha`.
pub open spec fn spec_pvss_ok(
    config: &Config,
    roster: Map<usize, Participant>,
    alpha: Seq<u8>,
    c: Seq<u8>,
    share: ShareView,
) -> bool {
    let n = roster.len();
    let g = config.srs.g_g1@;
    let m = encryption_len(n, share);
    &&& domain_exists(n)
    &&& share_lengths_ok(config, n, share)
    &&& degree_check_value(n, config.degree as nat, alpha, c, share) == g1_identity()
    &&& pairing_product_is_one(ratio_pairs(c, config.u_1@, g, share))
    &&& roster_covers(roster, m)
    &&& pairing_product_is_one(encryption_pairs(alpha, g, share, roster, m))
}

/// A transcript's entries listed by increasing id.
pub open spec fn sorted_entries<V>(m: Map<usize, V>, s: Seq<(usize, V)>) -> bool {
    &&& s.len() == m.dom().len()
    &&& forall|i: int| 0 <= i < s.len() ==> #[trigger] m.contains_key(s[i].0) && m[s[i].0] == s[i].1
    &&& forall|i: int, j: int| 0 <= i < j < s.len() ==> (#[trigger] s[i].0) < (#[trigger] s[j].0)
}

/// `sum_k c_k * weight_k` over the first `k` listed entries.
pub open spec fn weighted_commitment<A, B>(s: Seq<(usize, (Seq<u8>, u64, A, B))>, k: nat) -> Seq<
    u8,
>
    decreases k,
{
    if k == 0 || k > s.len() {
        g1_identity()
    } else {
        g1_sum(
            weighted_commitment(s, (k - 1) as nat),
            g1_scaled(s[k - 1].1.0, fr_of_u64(s[k - 1].1.1)),
        )
    }
}

/// The weighted sum over a prefix depends only on that prefix.
pub proof fn lemma_weighted_commitment_prefix<A, B>(
    s: Seq<(usize, (Seq<u8>, u64, A, B))>,
    t: Seq<(usize, (Seq<u8>, u64, A, B))>,
    k: nat,
)
    requires
        k <= s.len(),
        k <= t.len(),
        s.subrange(0, k as int) == t.subrange(0, k as int),
    ensures
        weighted_commitment(s, k) == weighted_commitment(t, k),
    decreases k,
{
    if k > 0 {
        assert(s[k - 1] == s.subrange(0, k as int)[k - 1]);
        assert(t[k - 1] == t.subrange(0, k as int)[k - 1]);
        assert(s.subrange(0, k - 1) =~= s.subrange(0, k as int).subrange(0, k - 1));
        assert(t.subrange(0, k - 1) =~= t.subrange(0, k as int).subrange(0, k - 1));
        lemma_weighted_commitment_prefix(s, t, (k - 1) as nat);
    }
}

/// The signature keys of the listed dealers.
pub open spec fn roster_keys<V>(s: Seq<(usize, V)>, roster: Map<usize, Participant>) -> Seq<Seq<u8>> {
    Seq::new(s.len(), |i: int| roster[s[i].0].public_key_sig@)
}

/// The commitments of the listed entries, which are also the signed
/// messages.
pub open spec fn entry_commitments<A, B>(s: Seq<(usize, (Seq<u8>, u64, A, B))>) -> Seq<Seq<u8>> {
    Seq::new(s.len(), |i: int| s[i].1.0)
}

/// The proofs of knowledge of the listed entries.
pub open spec fn entry_proofs<A, B>(s: Seq<(usize, (Seq<u8>, u64, A, B))>) -> Seq<A> {
    Seq::new(s.len(), |i: int| s[i].1.2)
}

/// The signatures of the listed entries.
pub open spec fn entry_signatures<A, B>(s: Seq<(usize, (Seq<u8>, u64, A, B))>) -> Seq<B> {
    Seq::new(s.len(), |i: int| s[i].1.3)
}

/// Whether `n` is a power of two; the loop halves it down to one.
pub fn is_power_of_two(n: usize) -> (r: bool)
    ensures
        r == is_pow2(n as nat),
{
    if n == 0 {
        return false;
    }
    let mut m: usize = n;
    while m > 1
        invariant
            1 <= m <= n,
            is_pow2(n as nat) == is_pow2(m as nat),
        decreases m,
    {
        if m % 2 != 0 {
            return false;
        }
        m = m / 2;
    }
    true
}

/// The size of the radix-2 evaluation domain of `n` points: `n` itself
/// when it is a power of two that the field supports.
pub fn evaluation_domain(n: usize) -> (r: Result<usize, DKGError>)
    ensures
        domain_exists(n as nat) ==> r == Ok::<usize, DKGError>(n),
        !domain_exists(n as nat) ==> r == Err::<usize, DKGError>(DKGError::EvaluationDomainError),
{
    if !is_power_of_two(n) {
        return Err(DKGError::EvaluationDomainError);
    }
    match radix2_domain_size(n) {
        Some(size) => Ok(size),
        None => Err(DKGError::EvaluationDomainError),
    }
}

/// The verifying and aggregating role: public parameters, the two signature
/// schemes, the roster and the transcript accepted so far.
pub struct DKGAggregator<
    SPOK: BatchVerifiableSignatureScheme<PublicKey = G1>,
    SSIG: BatchVerifiableSignatureScheme<PublicKey = G2>,
> {
    pub config: Config,
    pub scheme_pok: SPOK,
    pub scheme_sig: SSIG,
    pub participants: BTreeMap<usize, Participant>,
    pub transcript: DKGTranscript<SPOK, SSIG>,
}

impl<
    SPOK: BatchVerifiableSignatureScheme<PublicKey = G1>,
    SSIG: BatchVerifiableSignatureScheme<PublicKey = G2>,
> DKGAggregator<SPOK, SSIG> {
    /// All checks on a public share pass with the challenge `alpha`.
    pub open spec fn pvss_ok(&self, alpha: Seq<u8>, c: Seq<u8>, share: ShareView) -> bool {
        spec_pvss_ok(&self.config, self.participants@, alpha, c, share)
    }

    /// What checking a public share against `c` with the challenge `alpha`
    /// reports: success exactly when every check passes, and otherwise the
    /// error of the first check that fails.
    pub open spec fn pvss_verified(
        &self,
        alpha: Seq<u8>,
        c: Seq<u8>,
        share: &PVSSShare,
        r: Result<(), DKGError>,
    ) -> bool {
        let n = self.participants@.len();
        let lengths = share_lengths_ok(&self.config, n, share@);
        let d = degree_check_value(n, self.config.degree as nat, alpha, c, share@);
        let m = encryption_len(n, share@);
        &&& r.is_ok() <==> self.pvss_ok(alpha, c, share@)
        &&& !domain_exists(n) ==> r == Err::<(), DKGError>(DKGError::EvaluationDomainError)
        &&& domain_exists(n) && !lengths ==> r == Err::<(), DKGError>(
            DKGError::ShareLengthsIncorrect(share.f_i.len(), share.a_i.len(), share.y_i.len()),
        )
        &&& domain_exists(n) && lengths && d != g1_identity() ==> (r matches Err(
            DKGError::EvaluationsCheckError(_),
        ))
        &&& domain_exists(n) && lengths && d == g1_identity() && !pairing_product_is_one(
            ratio_pairs(c, self.config.u_1@, self.config.srs.g_g1@, share@),
        ) ==> r == Err::<(), DKGError>(DKGError::RatioIncorrect)
        &&& match r {
            Ok(_) => true,
            Err(DKGError::EvaluationDomainError) => !domain_exists(n),
            Err(DKGError::ShareLengthsIncorrect(..)) => domain_exists(n) && !lengths,
            Err(DKGError::EvaluationsCheckError(p)) => domain_exists(n) && p@ == d && d
                != g1_identity(),
            Err(DKGError::InvalidParticipantId(i)) => i < m && !self.participants@.contains_key(i)
                && (forall|k: usize| k < i ==> #[trigger] self.participants@.contains_key(k)),
            Err(e) => e == DKGError::RatioIncorrect,
        }
    }

    /// Checks a public share against the commitment `c_i` with the
    /// challenge `alpha`: the degree check, the same-ratio check and the
    /// encryption check, in that order.
    pub fn pvss_share_verify_with(&self, alpha: &Scalar, c_i: &G1, share: &PVSSShare) -> (r:
        Result<(), DKGError>)
        ensures
            self.pvss_verified(alpha@, c_i@, share, r),
    {
        let ghost n = self.participants@.len();
        let ghost g = self.config.srs.g_g1@;
        let num = self.participants.len();
        let size = match evaluation_domain(num) {
            Ok(s) => s,
            Err(e) => return Err(e),
        };
        let degree = self.config.degree;
        if share.f_i.len() != degree || share.a_i.len() != num || share.y_i.len() != num {
            return Err(
                DKGError::ShareLengthsIncorrect(share.f_i.len(), share.a_i.len(), share.y_i.len()),
            );
        }
        // The degree check.
        let lagrange = lagrange_coefficients(size, alpha);
        let mut bases: Vec<G1> = Vec::new();
        append_points(&mut bases, &share.a_i);
        push_point(&mut bases, c_i);
        append_points(&mut bases, &share.f_i);
        assert(points_view(bases@) =~= degree_bases(c_i@, share@));
        let mut scalars: Vec<Scalar> = Vec::new();
        append_scalars(&mut scalars, &lagrange);
        assert(scalars_view(scalars@) =~= scalars_view(lagrange@));
        let ghost lview = scalars_view(lagrange@);
        let mut power = Scalar::one().negate();
        let ghost before = scalars_view(scalars@);
        scalars.push(power.clone());
        assert(scalars_view(scalars@) =~= lview + Seq::new(1, |j: int| neg_power(alpha@, j as nat)));
        let mut k: usize = 0;
        while k < degree
            invariant
                k <= degree,
                power@ == neg_power(alpha@, k as nat),
                scalars_view(scalars@) == lview + Seq::new(
                    (k + 1) as nat,
                    |j: int| neg_power(alpha@, j as nat),
                ),
            decreases degree - k,
        {
            power = power.times(alpha);
            let ghost before = scalars_view(scalars@);
            scalars.push(power.clone());
            assert(scalars_view(scalars@) =~= before.push(power@));
            k += 1;
            assert(scalars_view(scalars@) =~= lview + Seq::new(
                (k + 1) as nat,
                |j: int| neg_power(alpha@, j as nat),
            ));
        }
        assert(scalars_view(scalars@) == degree_scalars(n, degree as nat, alpha@));
        let m = if bases.len() <= scalars.len() {
            bases.len()
        } else {
            scalars.len()
        };
        bases.truncate(m);
        scalars.truncate(m);
        assert(points_view(bases@) =~= degree_bases(c_i@, share@).take(m as int));
        assert(scalars_view(scalars@) =~= degree_scalars(n, degree as nat, alpha@).take(m as int));
        let product = G1::msm(&bases, &scalars);
        if !product.is_identity() {
            return Err(DKGError::EvaluationsCheckError(product));
        }
        // The same-ratio check.
        let neg_g = self.config.srs.g_g1.negate();
        let pairs = vec![(c_i.clone(), self.config.u_1.clone()), (neg_g.clone(), share.u_i_2.clone())];
        assert(pairs_view(pairs@) =~= ratio_pairs(c_i@, self.config.u_1@, g, share@));
        if !pairing_check(&pairs) {
            return Err(DKGError::RatioIncorrect);
        }
        // The encryption check.
        let mut len = if share.a_i.len() <= num + 1 {
            share.a_i.len()
        } else {
            num + 1
        };
        if share.y_i.len() < len {
            len = share.y_i.len();
        }
        let ghost roster = self.participants@;
        let mut enc: Vec<(G1, G2)> = Vec::new();
        let mut weight = Scalar::one();
        let mut i: usize = 0;
        while i < len
            invariant
                i <= len,
                n == self.participants@.len(),
                domain_exists(n),
                share_lengths_ok(&self.config, n, share@),
                degree_check_value(n, self.config.degree as nat, alpha@, c_i@, share@)
                    == g1_identity(),
                pairing_product_is_one(ratio_pairs(c_i@, self.config.u_1@, g, share@)),
                g == self.config.srs.g_g1@,
                len == encryption_len(n, share@),
                len <= share.a_i.len(),
                len <= share.y_i.len(),
                roster == self.participants@,
                neg_g@ == g1_negated(g),
                weight@ == fr_power(alpha@, i as nat),
                enc.len() == 2 * i,
                forall|k: usize| k < i ==> #[trigger] roster.contains_key(k),
                forall|j: int|
                    0 <= j < 2 * i ==> (#[trigger] pairs_view(enc@)[j]) == encryption_pair(
                        alpha@,
                        g,
                        share@,
                        roster,
                        j,
                    ),
            decreases len - i,
        {
            let participant = match self.participants.get(&i) {
                Some(p) => p,
                None => {
                    assert(!roster.contains_key(i));
                    assert(!roster_covers(roster, len as nat));
                    return Err(DKGError::InvalidParticipantId(i));
                },
            };
            let ghost old_enc = pairs_view(enc@);
            enc.push((neg_g.times(&weight), share.y_i[i].clone()));
            enc.push((share.a_i[i].times(&weight), participant.public_key_sig.clone()));
            proof {
                assert forall|j: int| 0 <= j < 2 * (i + 1) implies (#[trigger] pairs_view(enc@)[j])
                    == encryption_pair(alpha@, g, share@, roster, j) by {
                    if j < 2 * i {
                        assert(pairs_view(enc@)[j] == old_enc[j]);
                    } else {
                        assert(j / 2 == i);
                    }
                }
            }
            weight = weight.times(alpha);
            i += 1;
        }
        assert(pairs_view(enc@) =~= encryption_pairs(alpha@, g, share@, roster, len as nat));
        if !pairing_check(&enc) {
            return Err(DKGError::RatioIncorrect);
        }
        Ok(())
    }

    /// Checks a public share with a challenge drawn from `rng`.
    pub fn pvss_share_verify(&self, rng: &mut ChaCha20Rng, c_i: &G1, share: &PVSSShare) -> (r:
        Result<(), DKGError>)
        ensures
            exists|alpha: Seq<u8>| self.pvss_verified(alpha, c_i@, share, r),
            exists|alpha: Seq<u8>| (r.is_ok() <==> self.pvss_ok(alpha, c_i@, share@)),
            r matches Err(DKGError::InvalidParticipantId(i)) ==> !self.participants@.contains_key(
                i,
            ),
            !domain_exists(self.participants@.len()) <==> r == Err::<(), DKGError>(
                DKGError::EvaluationDomainError,
            ),
            domain_exists(self.participants@.len()) && !share_lengths_ok(
                &self.config,
                self.participants@.len(),
                share@,
            ) ==> r == Err::<(), DKGError>(
                DKGError::ShareLengthsIncorrect(share.f_i.len(), share.a_i.len(), share.y_i.len()),
            ),
            domain_exists(self.participants@.len()) && share_lengths_ok(
                &self.config,
                self.participants@.len(),
                share@,
            ) && !pairing_product_is_one(
                ratio_pairs(c_i@, self.config.u_1@, self.config.srs.g_g1@, share@),
            ) ==> r == Err::<(), DKGError>(DKGError::RatioIncorrect) || r matches Err(
                DKGError::EvaluationsCheckError(_),
            ),
    {
        let alpha = Scalar::random(rng);
        let r = self.pvss_share_verify_with(&alpha, c_i, share);
        assert(self.pvss_verified(alpha@, c_i@, share, r));
        assert(r.is_ok() <==> self.pvss_ok(alpha@, c_i@, share@));
        r
    }

    /// A share passes every check with the challenge `alpha`: its dealer is
    /// on the roster, its public share is well formed for its commitment,
    /// the dealer signed the commitment, and the proof of knowledge of the
    /// commitment's discrete logarithm holds.
    pub open spec fn share_ok(&self, alpha: Seq<u8>, share: &DKGShare<SPOK, SSIG>) -> bool {
        let id = share.participant_id;
        &&& self.participants@.contains_key(id)
        &&& self.pvss_ok(alpha, share.c_i@, share.pvss_share@)
        &&& self.scheme_sig.spec_verifies(
            self.participants@[id].public_key_sig@,
            share.c_i@,
            share.signature_on_c_i@,
        )
        &&& self.scheme_pok.spec_verifies(share.c_i@, share.c_i@, share.c_i_pok@)
    }

    /// What checking a share with the challenge `alpha` reports: success
    /// exactly when every check passes; otherwise a dealer off the roster, the
    /// public-share check's error, or the failed signature or proof of
    /// knowledge as the scheme reports it.
    pub open spec fn share_verified(
        &self,
        alpha: Seq<u8>,
        share: &DKGShare<SPOK, SSIG>,
        r: Result<(), DKGError>,
    ) -> bool {
        let id = share.participant_id;
        let c = share.c_i@;
        let on_roster = self.participants@.contains_key(id);
        let pvss = self.pvss_ok(alpha, c, share.pvss_share@);
        let sig_ok = self.scheme_sig.spec_verifies(
            self.participants@[id].public_key_sig@,
            c,
            share.signature_on_c_i@,
        );
        &&& r.is_ok() <==> self.share_ok(alpha, share)
        &&& !on_roster ==> r == Err::<(), DKGError>(DKGError::InvalidParticipantId(id))
        &&& r matches Err(DKGError::InvalidParticipantId(i)) ==> !self.participants@.contains_key(i)
        &&& on_roster && !pvss ==> self.pvss_verified(alpha, c, &share.pvss_share, r)
        &&& on_roster && pvss && !sig_ok ==> r == Err::<(), DKGError>(
            DKGError::SignatureError(
                if self.scheme_sig.spec_verify_hashes(c, share.signature_on_c_i@) {
                    self.scheme_sig.spec_verify_error()
                } else {
                    SignatureError::HashAttemptsExhausted
                },
            ),
        )
        &&& on_roster && pvss && sig_ok && !self.scheme_pok.spec_verifies(c, c, share.c_i_pok@)
            ==> r == Err::<(), DKGError>(
            DKGError::SignatureError(
                if self.scheme_pok.spec_verify_hashes(c, share.c_i_pok@) {
                    self.scheme_pok.spec_verify_error()
                } else {
                    SignatureError::HashAttemptsExhausted
                },
            ),
        )
    }

    /// Checks a share with the challenge `alpha`.
    pub fn share_verify_with(&self, alpha: &Scalar, share: &DKGShare<SPOK, SSIG>) -> (r: Result<
        (),
        DKGError,
    >)
        ensures
            self.share_verified(alpha@, share, r),
    {
        let participant_id = share.participant_id;
        let participant = match self.participants.get(&participant_id) {
            Some(p) => p,
            None => return Err(DKGError::InvalidParticipantId(participant_id)),
        };
        match self.pvss_share_verify_with(alpha, &share.c_i, &share.pvss_share) {
            Ok(()) => {},
            Err(e) => return Err(e),
        }
        let message = match message_from_c_i(&share.c_i) {
            Ok(m) => m,
            Err(e) => return Err(e),
        };
        match self.scheme_sig.verify(
            &participant.public_key_sig,
            message.as_slice(),
            &share.signature_on_c_i,
        ) {
            Ok(()) => {},
            Err(e) => return Err(DKGError::from_signature(e)),
        }
        match self.scheme_pok.verify(&share.c_i, message.as_slice(), &share.c_i_pok) {
            Ok(()) => {},
            Err(e) => return Err(DKGError::from_signature(e)),
        }
        Ok(())
    }

    /// Checks a share with a challenge drawn from `rng`.
    pub fn share_verify(&mut self, rng: &mut ChaCha20Rng, share: &DKGShare<SPOK, SSIG>) -> (r:
        Result<(), DKGError>)
        ensures
            *final(self) == *old(self),
            exists|alpha: Seq<u8>| old(self).share_verified(alpha, share, r),
            exists|alpha: Seq<u8>| (r.is_ok() <==> old(self).share_ok(alpha, share)),
            !old(self).participants@.contains_key(share.participant_id) <==> r == Err::<
                (),
                DKGError,
            >(DKGError::InvalidParticipantId(share.participant_id)),
            r matches Err(DKGError::InvalidParticipantId(i)) ==> !old(
                self,
            ).participants@.contains_key(i),
    {
        let alpha = Scalar::random(rng);
        let r = self.share_verify_with(&alpha, share);
        assert(self.share_verified(alpha@, share, r));
        assert(r.is_ok() <==> self.share_ok(alpha@, share));
        r
    }

    /// A transcript passes every check with the given challenges: the
    /// participants' signatures on the commitments, the proofs of knowledge
    /// of the commitments, and the aggregated public share against the
    /// weighted sum of the commitments.
    pub open spec fn transcript_ok(
        &self,
        s: Seq<(usize, EntryView<SPOK, SSIG>)>,
        alpha_sig: Seq<u8>,
        alpha_pok: Seq<u8>,
        alpha: Seq<u8>,
        share: ShareView,
    ) -> bool {
        &&& self.scheme_sig.spec_batch_verifies(
            alpha_sig,
            roster_keys(s, self.participants@),
            entry_commitments(s),
            entry_signatures(s),
        )
        &&& self.scheme_pok.spec_batch_verifies(
            alpha_pok,
            entry_commitments(s),
            entry_commitments(s),
            entry_proofs(s),
        )
        &&& self.pvss_ok(alpha, weighted_commitment(s, s.len()), share)
    }

    /// What the three checks on the listed entries `s` of a transcript
    /// report with the challenges `a1`, `a2` and `a3`: success exactly when
    /// all pass; otherwise the failed batch check of the signatures or of the
    /// proofs of knowledge, or the public-share check's own error.
    pub open spec fn transcript_checked(
        &self,
        s: Seq<(usize, EntryView<SPOK, SSIG>)>,
        a1: Seq<u8>,
        a2: Seq<u8>,
        a3: Seq<u8>,
        share: &PVSSShare,
        r: Result<(), DKGError>,
    ) -> bool {
        let sig = self.scheme_sig.spec_batch_verifies(
            a1,
            roster_keys(s, self.participants@),
            entry_commitments(s),
            entry_signatures(s),
        );
        let pok = self.scheme_pok.spec_batch_verifies(
            a2,
            entry_commitments(s),
            entry_commitments(s),
            entry_proofs(s),
        );
        &&& r.is_ok() <==> self.transcript_ok(s, a1, a2, a3, share@)
        &&& !sig ==> (r matches Err(DKGError::SignatureError(e)) && (e
            == self.scheme_sig.spec_batch_error() || e == SignatureError::HashAttemptsExhausted))
        &&& sig && !pok ==> (r matches Err(DKGError::SignatureError(e)) && (e
            == self.scheme_pok.spec_batch_error() || e == SignatureError::HashAttemptsExhausted))
        &&& sig && pok ==> self.pvss_verified(a3, weighted_commitment(s, s.len()), share, r)
    }

    /// What verifying `transcript` with the challenges `a1`, `a2` and `a3`
    /// reports: the first dealer off the roster, if any; otherwise the
    /// outcome of the three checks on its entries listed by increasing id.
    pub open spec fn transcript_received_with(
        &self,
        a1: Seq<u8>,
        a2: Seq<u8>,
        a3: Seq<u8>,
        transcript: &DKGTranscript<SPOK, SSIG>,
        r: Result<(), DKGError>,
    ) -> bool {
        let m = transcript.entries();
        &&& r matches Err(DKGError::InvalidParticipantId(id)) ==> !self.participants@.contains_key(id)
        &&& (exists|id: usize|
            m.contains_key(id) && !(#[trigger] self.participants@.contains_key(id))) ==> (
        r matches Err(DKGError::InvalidParticipantId(id)) && {
            &&& m.contains_key(id)
            &&& forall|k: usize| k < id && #[trigger] m.contains_key(k) ==> self.participants@.contains_key(k)
        })
        &&& (forall|id: usize| #[trigger] m.contains_key(id) ==> self.participants@.contains_key(id))
            ==> exists|s: Seq<(usize, EntryView<SPOK, SSIG>)>|
            sorted_entries(m, s) && self.transcript_checked(s, a1, a2, a3, &transcript.pvss_share, r)
        &&& r.is_ok() ==> exists|s: Seq<(usize, EntryView<SPOK, SSIG>)>|
            sorted_entries(m, s) && self.transcript_ok(s, a1, a2, a3, transcript.pvss_share@)
    }

    /// What verifying `transcript` reports, for some challenges.
    pub open spec fn transcript_received(
        &self,
        transcript: &DKGTranscript<SPOK, SSIG>,
        r: Result<(), DKGError>,
    ) -> bool {
        exists|a1: Seq<u8>, a2: Seq<u8>, a3: Seq<u8>|
            self.transcript_received_with(a1, a2, a3, transcript, r)
    }

    /// Verifies a whole transcript with challenges drawn from `rng`; the
    /// aggregator itself is left as it was.
    pub fn receive_transcript(
        &mut self,
        rng: &mut ChaCha20Rng,
        transcript: &DKGTranscript<SPOK, SSIG>,
    ) -> (r: Result<(), DKGError>)
        ensures
            *final(self) == *old(self),
            old(self).transcript_received(transcript, r),
    {
        let a1 = Scalar::random(rng);
        let a2 = Scalar::random(rng);
        let a3 = Scalar::random(rng);
        let r = self.receive_transcript_with(&a1, &a2, &a3, transcript);
        assert(self.transcript_received_with(a1@, a2@, a3@, transcript, r));
        r
    }

    /// Verifies a whole transcript with the challenges `a1` (signatures),
    /// `a2` (proofs of knowledge) and `a3` (public share).
    pub fn receive_transcript_with(
        &self,
        a1: &Scalar,
        a2: &Scalar,
        a3: &Scalar,
        transcript: &DKGTranscript<SPOK, SSIG>,
    ) -> (r: Result<(), DKGError>)
        ensures
            self.transcript_received_with(a1@, a2@, a3@, transcript, r),
    {
        let ghost roster = self.participants@;
        let ghost m = transcript.entries();
        let mut c = G1::identity();
        let mut public_keys_sig: Vec<G2> = Vec::new();
        let mut signatures_sig: Vec<SSIG::Signature> = Vec::new();
        let mut public_keys_pok: Vec<G1> = Vec::new();
        let mut signatures_pok: Vec<SPOK::Signature> = Vec::new();
        let mut messages: Vec<Vec<u8>> = Vec::new();
        let ghost mut es: Seq<(usize, EntryView<SPOK, SSIG>)> = Seq::empty();
        let entries_iter = transcript.contributions.iter();
        let ghost full = entries_iter.remaining();
        proof {
            assert(full == spec_btree_map_iter(&transcript.contributions).remaining());
            assert(m.dom() =~= transcript.contributions@.dom());
            let keys = full.map_values(|kv: (&usize, &DKGTranscriptParticipant<SPOK, SSIG>)| *kv.0);
            assert(increasing_seq(keys));
            assert forall|i: int, j: int| 0 <= i < j < full.len() implies *full[i].0 < *full[j].0 by {
                assert(keys[i] == *full[i].0);
                assert(keys[j] == *full[j].0);
                assert(keys[i].cmp_spec(&keys[j]) is Less);
            }
        }
        for kv in it: entries_iter
            invariant
                roster == self.participants@,
                m == transcript.entries(),
                it.seq() == full,
                full.len() == m.dom().len(),
                forall|i: int|
                    0 <= i < full.len() ==> transcript.contributions@.contains_key(*full[i].0)
                        && transcript.contributions@[*full[i].0] == *full[i].1,
                forall|i: int, j: int| 0 <= i < j < full.len() ==> *full[i].0 < *full[j].0,
                forall|k: usize|
                    #[trigger] transcript.contributions@.contains_key(k) ==> full.contains(
                        (&k, &transcript.contributions@[k]),
                    ),
                es.len() == it.index(),
                es.len() <= full.len(),
                forall|i: int|
                    0 <= i < es.len() ==> es[i].0 == *full[i].0 && es[i].1 == full[i].1@,
                forall|i: int| 0 <= i < es.len() ==> #[trigger] roster.contains_key(es[i].0),
                public_keys_sig.len() == es.len(),
                points_view(public_keys_sig@) == roster_keys(es, roster),
                messages_view(messages@) == entry_commitments(es),
                signatures_view(signatures_sig@) == entry_signatures(es),
                points_view(public_keys_pok@) == entry_commitments(es),
                signatures_view(signatures_pok@) == entry_proofs(es),
                c@ == weighted_commitment(es, es.len()),
        {
            let (id, contribution) = kv;
            let ghost idx = es.len() as int;
            let participant = match self.participants.get(id) {
                Some(p) => p,
                None => {
                    proof {
                        assert(m.contains_key(*id));
                        assert forall|k: usize|
                            k < *id && #[trigger] m.contains_key(k) implies roster.contains_key(
                            k,
                        ) by {
                            assert(transcript.contributions@.contains_key(k));
                            assert(full.contains((&k, &transcript.contributions@[k])));
                            let j = choose|j: int|
                                0 <= j < full.len() && full[j] == (
                                    &k,
                                    &transcript.contributions@[k],
                                );
                            if j >= idx {
                                if j > idx {
                                    assert(*full[idx].0 < *full[j].0);
                                }
                            } else {
                                assert(es[j].0 == k);
                            }
                        }
                    }
                    return Err(DKGError::InvalidParticipantId(*id));
                },
            };
            let message = match message_from_c_i(&contribution.c_i) {
                Ok(msg) => msg,
                Err(e) => return Err(e),
            };
            let ghost ev = (*id, contribution@);
            let ghost old_es = es;
            proof {
                es = es.push(ev);
            }
            let ghost b1 = points_view(public_keys_sig@);
            let ghost b2 = messages_view(messages@);
            let ghost b3 = signatures_view(signatures_sig@);
            let ghost b4 = points_view(public_keys_pok@);
            let ghost b5 = signatures_view(signatures_pok@);
            public_keys_sig.push(participant.public_key_sig.clone());
            messages.push(message);
            signatures_sig.push(SSIG::clone_signature(&contribution.signature_on_c_i));
            public_keys_pok.push(contribution.c_i.clone());
            signatures_pok.push(SPOK::clone_signature(&contribution.c_i_pok));
            let w = Scalar::from_u64(contribution.weight);
            c = c.plus(&contribution.c_i.times(&w));
            proof {
                assert(points_view(public_keys_sig@) =~= b1.push(participant.public_key_sig@));
                assert(points_view(public_keys_sig@) =~= roster_keys(es, roster));
                assert(messages_view(messages@) =~= b2.push(contribution.c_i@));
                assert(messages_view(messages@) =~= entry_commitments(es));
                assert(signatures_view(signatures_sig@) =~= b3.push(contribution.signature_on_c_i@));
                assert(signatures_view(signatures_sig@) =~= entry_signatures(es));
                assert(points_view(public_keys_pok@) =~= b4.push(contribution.c_i@));
                assert(points_view(public_keys_pok@) =~= entry_commitments(es));
                assert(signatures_view(signatures_pok@) =~= b5.push(contribution.c_i_pok@));
                assert(signatures_view(signatures_pok@) =~= entry_proofs(es));
                assert(es.subrange(0, idx) =~= old_es.subrange(0, idx));
                assert(weighted_commitment(es, idx as nat) == weighted_commitment(old_es, idx as nat))
                    by {
                    lemma_weighted_commitment_prefix(es, old_es, idx as nat);
                }
            }
        }
        proof {
            assert forall|id: usize| #[trigger] m.contains_key(id) implies roster.contains_key(id) by {
                assert(transcript.contributions@.contains_key(id));
                assert(full.contains((&id, &transcript.contributions@[id])));
                let j = choose|j: int|
                    0 <= j < full.len() && full[j] == (&id, &transcript.contributions@[id]);
                assert(es[j].0 == id);
            }
            assert(sorted_entries(m, es)) by {
                assert forall|i: int| 0 <= i < es.len() implies #[trigger] m.contains_key(es[i].0)
                    && m[es[i].0] == es[i].1 by {
                    assert(transcript.contributions@.contains_key(*full[i].0));
                }
                assert forall|i: int, j: int| 0 <= i < j < es.len() implies (#[trigger] es[i].0) < (
                #[trigger] es[j].0) by {
                    assert(*full[i].0 < *full[j].0);
                }
            }
        }
        let ghost s = es;
        let ghost share = &transcript.pvss_share;
        let sig_result = self.scheme_sig.batch_verify_with(
            a1,
            &public_keys_sig,
            &messages,
            &signatures_sig,
        );
        match sig_result {
            Ok(()) => {},
            Err(e) => {
                assert(self.transcript_checked(s, a1@, a2@, a3@, share, Err(DKGError::SignatureError(e))));
                return Err(DKGError::from_signature(e));
            },
        }
        let pok_result = self.scheme_pok.batch_verify_with(
            a2,
            &public_keys_pok,
            &messages,
            &signatures_pok,
        );
        match pok_result {
            Ok(()) => {},
            Err(e) => {
                assert(self.transcript_checked(s, a1@, a2@, a3@, share, Err(DKGError::SignatureError(e))));
                return Err(DKGError::from_signature(e));
            },
        }
        let pvss_result = self.pvss_share_verify_with(a3, &c, &transcript.pvss_share);
        assert(self.transcript_checked(s, a1@, a2@, a3@, share, pvss_result));
        pvss_result
    }

    /// The transcript entry of a single accepted submission of `share`.
    pub open spec fn single_entry(share: &DKGShare<SPOK, SSIG>) -> Map<usize, EntryView<SPOK, SSIG>> {
        map![share.participant_id => (share.c_i@, 1u64, share.c_i_pok@, share.signature_on_c_i@)]
    }

    /// What receiving `share` with the challenge `alpha` does: when the
    /// share passes, it is folded into the transcript with weight one,
    /// unless the transcript was made for other parameters or holds another
    /// commitment of the same dealer; otherwise nothing changes.
    pub open spec fn share_received(
        &self,
        new: &Self,
        alpha: Seq<u8>,
        share: &DKGShare<SPOK, SSIG>,
        r: Result<(), DKGError>,
    ) -> bool {
        let t = &self.transcript;
        let n = self.participants@.len();
        &&& new.config == self.config
        &&& new.scheme_pok == self.scheme_pok
        &&& new.scheme_sig == self.scheme_sig
        &&& new.participants == self.participants
        &&& r.is_err() ==> new.transcript == self.transcript
        &&& !self.participants@.contains_key(share.participant_id) ==> r == Err::<(), DKGError>(
            DKGError::InvalidParticipantId(share.participant_id),
        )
        &&& r matches Err(DKGError::InvalidParticipantId(i)) ==> !self.participants@.contains_key(i)
        &&& !self.share_ok(alpha, share) ==> r.is_err()
        &&& self.share_ok(alpha, share) ==> if t.degree != self.config.degree || t.num_participants
            != n {
            r == Err::<(), DKGError>(
                DKGError::TranscriptDifferentConfig(
                    t.degree,
                    self.config.degree,
                    t.num_participants,
                    n as usize,
                ),
            )
        } else if !commitments_agree(t.num_participants as nat, t.entries(), Self::single_entry(share)) {
            r == Err::<(), DKGError>(DKGError::TranscriptDifferentCommitments)
        } else {
            r.is_ok() && self.folds(&new.transcript, share)
        }
        &&& r.is_ok() <==> self.accepts(alpha, share)
    }

    /// The share passes with the challenge `alpha` and folds into the
    /// transcript.
    pub open spec fn accepts(&self, alpha: Seq<u8>, share: &DKGShare<SPOK, SSIG>) -> bool {
        let t = &self.transcript;
        &&& self.share_ok(alpha, share)
        &&& t.degree == self.config.degree
        &&& t.num_participants == self.participants@.len()
        &&& commitments_agree(t.num_participants as nat, t.entries(), Self::single_entry(share))
    }

    /// `new` is the transcript with `share` folded in with weight one.
    pub open spec fn folds(&self, new: &DKGTranscript<SPOK, SSIG>, share: &DKGShare<SPOK, SSIG>) -> bool {
        let t = &self.transcript;
        &&& new.degree == t.degree
        &&& new.num_participants == t.num_participants
        &&& new.entries() == spec_merge(t.num_participants as nat, t.entries(), Self::single_entry(share))
        &&& new.pvss_share@ == spec_share_sum(t.pvss_share@, share.pvss_share@)
    }

    /// Receives a share, checked with the challenge `alpha`.
    pub fn receive_share_with(&mut self, alpha: &Scalar, share: &DKGShare<SPOK, SSIG>) -> (r:
        Result<(), DKGError>)
        requires
            old(self).transcript.entries().contains_key(share.participant_id) ==> old(
                self,
            ).transcript.entries()[share.participant_id].1 < u64::MAX,
        ensures
            old(self).share_received(final(self), alpha@, share, r),
    {
        match self.share_verify_with(alpha, share) {
            Ok(()) => {},
            Err(e) => return Err(e),
        }
        let entry = DKGTranscriptParticipant {
            c_i: share.c_i.clone(),
            weight: 1,
            c_i_pok: SPOK::clone_signature(&share.c_i_pok),
            signature_on_c_i: SSIG::clone_signature(&share.signature_on_c_i),
        };
        let mut contributions = BTreeMap::new();
        contributions.insert(share.participant_id, entry);
        let single = DKGTranscript {
            degree: self.config.degree,
            num_participants: self.participants.len(),
            contributions,
            pvss_share: share.pvss_share.clone(),
        };
        assert(single.entries() =~= Self::single_entry(share));
        match self.transcript.aggregate(&single) {
            Ok(t) => {
                self.transcript = t;
                Ok(())
            },
            Err(e) => Err(e),
        }
    }

    /// Verifies a share with a challenge drawn from `rng` and, when it
    /// passes, folds it into the transcript with weight one; errors are
    /// reported, not swallowed.
    pub fn receive_share(&mut self, rng: &mut ChaCha20Rng, share: &DKGShare<SPOK, SSIG>) -> (r:
        Result<(), DKGError>)
        requires
            old(self).transcript.entries().contains_key(share.participant_id) ==> old(
                self,
            ).transcript.entries()[share.participant_id].1 < u64::MAX,
        ensures
            exists|alpha: Seq<u8>| old(self).share_received(final(self), alpha, share, r),
            r matches Err(DKGError::InvalidParticipantId(i)) ==> !old(
                self,
            ).participants@.contains_key(i),
            !old(self).participants@.contains_key(share.participant_id) ==> r == Err::<
                (),
                DKGError,
            >(DKGError::InvalidParticipantId(share.participant_id)),
    {
        let alpha = Scalar::random(rng);
        let ghost before = *self;
        let r = self.receive_share_with(&alpha, share);
        assert(before.share_received(self, alpha@, share, r));
        r
    }
}

} // verus!
