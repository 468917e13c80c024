//! Dealers' shares as sent, and the transcript that folds them together.
use vstd::prelude::*;

use crate::algebra::G1;
use crate::errors::DKGError;
use crate::pvss::{spec_share_sum, PVSSShare};
use crate::scheme::SignatureScheme;
use std::collections::BTreeMap;

verus! {

broadcast use {vstd::laws_cmp::group_laws_cmp, vstd::std_specs::btree::group_btree_axioms};

/// What one dealer sends: its commitment `c_i = g * f_0`, its public share,
/// a proof of knowledge of `f_0` and its signature on `c_i`.
pub struct DKGShare<SPOK: SignatureScheme, SSIG: SignatureScheme> {
    pub participant_id: usize,
    pub pvss_share: PVSSShare,
    pub c_i: G1,
    pub c_i_pok: SPOK::Signature,
    pub signature_on_c_i: SSIG::Signature,
}

impl<SPOK: SignatureScheme, SSIG: SignatureScheme> Clone for DKGShare<SPOK, SSIG> {
    fn clone(&self) -> (r: Self)
        ensures
            r.participant_id == self.participant_id,
            r.pvss_share@ == self.pvss_share@,
            r.c_i@ == self.c_i@,
            r.c_i_pok@ == self.c_i_pok@,
            r.signature_on_c_i@ == self.signature_on_c_i@,
    {
        DKGShare {
            participant_id: self.participant_id,
            pvss_share: self.pvss_share.clone(),
            c_i: self.c_i.clone(),
            c_i_pok: SPOK::clone_signature(&self.c_i_pok),
            signature_on_c_i: SSIG::clone_signature(&self.signature_on_c_i),
        }
    }
}

/// A dealer's entry in a transcript; `weight` counts the accepted
/// submissions of the same commitment.
pub struct DKGTranscriptParticipant<SPOK: SignatureScheme, SSIG: SignatureScheme> {
    pub c_i: G1,
    pub weight: u64,
    pub c_i_pok: SPOK::Signature,
    pub signature_on_c_i: SSIG::Signature,
}

impl<SPOK: SignatureScheme, SSIG: SignatureScheme> View for DKGTranscriptParticipant<SPOK, SSIG> {
    type V = (Seq<u8>, u64, <SPOK::Signature as View>::V, <SSIG::Signature as View>::V);

    open spec fn view(&self) -> Self::V {
        (self.c_i@, self.weight, self.c_i_pok@, self.signature_on_c_i@)
    }
}

impl<SPOK: SignatureScheme, SSIG: SignatureScheme> Clone for DKGTranscriptParticipant<SPOK, SSIG> {
    fn clone(&self) -> (r: Self)
        ensures
            r@ == self@,
    {
        DKGTranscriptParticipant {
            c_i: self.c_i.clone(),
            weight: self.weight,
            c_i_pok: SPOK::clone_signature(&self.c_i_pok),
            signature_on_c_i: SSIG::clone_signature(&self.signature_on_c_i),
        }
    }
}

/// The view of a transcript entry.
pub type EntryView<SPOK, SSIG> = <DKGTranscriptParticipant<SPOK, SSIG> as View>::V;

/// The views of the entries of a transcript.
pub open spec fn contributions_view<SPOK: SignatureScheme, SSIG: SignatureScheme>(
    m: Map<usize, DKGTranscriptParticipant<SPOK, SSIG>>,
) -> Map<usize, EntryView<SPOK, SSIG>> {
    m.map_values(|p: DKGTranscriptParticipant<SPOK, SSIG>| p@)
}

/// Two entries of the same dealer folded together: the commitment, proof
/// and signature of the first, and the sum of the weights.
pub open spec fn merge_entries<A, B>(x: (Seq<u8>, u64, A, B), y: (Seq<u8>, u64, A, B)) -> (
    Seq<u8>,
    u64,
    A,
    B,
) {
    (x.0, (x.1 + y.1) as u64, x.2, x.3)
}

/// The entries of two transcripts folded together, over the ids below `n`.
pub open spec fn spec_merge<A, B>(
    n: nat,
    a: Map<usize, (Seq<u8>, u64, A, B)>,
    b: Map<usize, (Seq<u8>, u64, A, B)>,
) -> Map<usize, (Seq<u8>, u64, A, B)> {
    Map::new(
        |i: usize| i < n && (a.contains_key(i) || b.contains_key(i)),
        |i: usize|
            if a.contains_key(i) && b.contains_key(i) {
                merge_entries(a[i], b[i])
            } else if a.contains_key(i) {
                a[i]
            } else {
                b[i]
            },
    )
}

/// Every dealer below `n` present in both has the same commitment in both.
pub open spec fn commitments_agree<A, B>(
    n: nat,
    a: Map<usize, (Seq<u8>, u64, A, B)>,
    b: Map<usize, (Seq<u8>, u64, A, B)>,
) -> bool {
    forall|i: usize| #![auto] i < n && a.contains_key(i) && b.contains_key(i) ==> a[i].0 == b[i].0
}

/// The weights of every dealer present in both add up within `u64`.
pub open spec fn weights_fit<A, B>(
    a: Map<usize, (Seq<u8>, u64, A, B)>,
    b: Map<usize, (Seq<u8>, u64, A, B)>,
) -> bool {
    forall|i: usize|
        #![auto]
        a.contains_key(i) && b.contains_key(i) ==> a[i].1 + b[i].1 <= u64::MAX
}

/// Every dealer present in both transcripts has the same proof of
/// knowledge and the same signature in both.
pub open spec fn proofs_agree<A, B>(
    a: Map<usize, (Seq<u8>, u64, A, B)>,
    b: Map<usize, (Seq<u8>, u64, A, B)>,
) -> bool {
    forall|i: usize|
        #![auto]
        a.contains_key(i) && b.contains_key(i) ==> a[i].2 == b[i].2 && a[i].3 == b[i].3
}

/// The weights of every dealer add up within `u64` over three transcripts.
pub open spec fn weights_fit3<A, B>(
    a: Map<usize, (Seq<u8>, u64, A, B)>,
    b: Map<usize, (Seq<u8>, u64, A, B)>,
    c: Map<usize, (Seq<u8>, u64, A, B)>,
) -> bool {
    forall|i: usize|
        #![auto]
        (if a.contains_key(i) {
            a[i].1 as int
        } else {
            0
        }) + (if b.contains_key(i) {
            b[i].1 as int
        } else {
            0
        }) + (if c.contains_key(i) {
            c[i].1 as int
        } else {
            0
        }) <= u64::MAX
}

/// Folding transcript entries does not depend on the order of the two
/// transcripts, where they agree on the commitments, proofs and signatures
/// of the dealers they share (the entry keeps those of the first).
pub proof fn lemma_merge_commutes<A, B>(
    n: nat,
    a: Map<usize, (Seq<u8>, u64, A, B)>,
    b: Map<usize, (Seq<u8>, u64, A, B)>,
)
    requires
        commitments_agree(n, a, b),
        proofs_agree(a, b),
    ensures
        spec_merge(n, a, b) == spec_merge(n, b, a),
{
    assert(spec_merge(n, a, b) =~= spec_merge(n, b, a));
}

/// Folding transcript entries is associative, where no weight passes
/// `u64::MAX`.
pub proof fn lemma_merge_associates<A, B>(
    n: nat,
    a: Map<usize, (Seq<u8>, u64, A, B)>,
    b: Map<usize, (Seq<u8>, u64, A, B)>,
    c: Map<usize, (Seq<u8>, u64, A, B)>,
)
    requires
        weights_fit3(a, b, c),
    ensures
        spec_merge(n, spec_merge(n, a, b), c) == spec_merge(n, a, spec_merge(n, b, c)),
{
    let l = spec_merge(n, spec_merge(n, a, b), c);
    let r = spec_merge(n, a, spec_merge(n, b, c));
    assert forall|i: usize| #![auto] l.contains_key(i) implies l[i] == r[i] by {
        assert(weights_fit3(a, b, c));
    }
    assert(l =~= r);
}

/// The folded contributions of all dealers, with the pointwise sum of their
/// public shares.
pub struct DKGTranscript<SPOK: SignatureScheme, SSIG: SignatureScheme> {
    pub degree: usize,
    pub num_participants: usize,
    pub contributions: BTreeMap<usize, DKGTranscriptParticipant<SPOK, SSIG>>,
    pub pvss_share: PVSSShare,
}

impl<SPOK: SignatureScheme, SSIG: SignatureScheme> Clone for DKGTranscript<SPOK, SSIG> {
    fn clone(&self) -> (r: Self)
        ensures
            r.degree == self.degree,
            r.num_participants == self.num_participants,
            r.contributions@ == self.contributions@,
            r.pvss_share@ == self.pvss_share@,
    {
        DKGTranscript {
            degree: self.degree,
            num_participants: self.num_participants,
            contributions: self.contributions.clone(),
            pvss_share: self.pvss_share.clone(),
        }
    }
}

/// The message that dealers sign: the canonical encoding of the commitment.
pub fn message_from_c_i(c_i: &G1) -> (r: Result<Vec<u8>, DKGError>)
    ensures
        r matches Ok(m) && m@ == c_i@,
{
    Ok(c_i.to_bytes())
}

impl<SPOK: SignatureScheme, SSIG: SignatureScheme> DKGTranscript<SPOK, SSIG> {
    /// The views of the entries.
    pub open spec fn entries(&self) -> Map<usize, EntryView<SPOK, SSIG>> {
        contributions_view(self.contributions@)
    }

    /// `t` is what folding `other` into this transcript gives, with the
    /// point sums in either order of their operands.
    pub open spec fn aggregated(&self, other: &Self, t: &Self) -> bool {
        &&& self.degree == other.degree
        &&& self.num_participants == other.num_participants
        &&& commitments_agree(self.num_participants as nat, self.entries(), other.entries())
        &&& t.degree == self.degree
        &&& t.num_participants == self.num_participants
        &&& t.entries() == spec_merge(self.num_participants as nat, self.entries(), other.entries())
        &&& t.pvss_share@ == spec_share_sum(self.pvss_share@, other.pvss_share@)
        &&& t.pvss_share@ == spec_share_sum(other.pvss_share@, self.pvss_share@)
    }

    /// The transcript with no contributions.
    pub fn empty(degree: usize, num_participants: usize) -> (r: Self)
        ensures
            r.degree == degree,
            r.num_participants == num_participants,
            r.contributions@ == Map::<usize, DKGTranscriptParticipant<SPOK, SSIG>>::empty(),
            r.pvss_share@ == PVSSShare::empty_view(degree as nat, num_participants as nat),
    {
        DKGTranscript {
            degree,
            num_participants,
            contributions: BTreeMap::new(),
            pvss_share: PVSSShare::empty(degree, num_participants),
        }
    }

    /// Folds `other` into this transcript: the entries of each dealer below
    /// `num_participants` are merged, and the public shares are added.
    pub fn aggregate(&self, other: &Self) -> (r: Result<Self, DKGError>)
        requires
            weights_fit(self.entries(), other.entries()),
        ensures
            self.degree != other.degree || self.num_participants != other.num_participants ==> r
                == Err::<Self, DKGError>(
                DKGError::TranscriptDifferentConfig(
                    self.degree,
                    other.degree,
                    self.num_participants,
                    other.num_participants,
                ),
            ),
            self.degree == other.degree && self.num_participants == other.num_participants ==> (
            r.is_err() <==> !commitments_agree(
                self.num_participants as nat,
                self.entries(),
                other.entries(),
            )),
            self.degree == other.degree && self.num_participants == other.num_participants ==> (
            r matches Err(e) ==> e == DKGError::TranscriptDifferentCommitments),
            r matches Ok(t) ==> {
                &&& t.degree == self.degree
                &&& t.num_participants == self.num_participants
                &&& t.entries() == spec_merge(
                    self.num_participants as nat,
                    self.entries(),
                    other.entries(),
                )
                &&& t.pvss_share@ == spec_share_sum(self.pvss_share@, other.pvss_share@)
            },
            r matches Ok(t) ==> self.aggregated(other, &t),
    {
        if self.degree != other.degree || self.num_participants != other.num_participants {
            return Err(
                DKGError::TranscriptDifferentConfig(
                    self.degree,
                    other.degree,
                    self.num_participants,
                    other.num_participants,
                ),
            );
        }
        let ghost a = self.entries();
        let ghost b = other.entries();
        let mut contributions: BTreeMap<usize, DKGTranscriptParticipant<SPOK, SSIG>> =
            BTreeMap::new();
        let mut i: usize = 0;
        while i < self.num_participants
            invariant
                i <= self.num_participants,
                self.degree == other.degree,
                self.num_participants == other.num_participants,
                a == self.entries(),
                b == other.entries(),
                weights_fit(a, b),
                commitments_agree(i as nat, a, b),
                contributions_view(contributions@) == spec_merge(i as nat, a, b),
            decreases self.num_participants - i,
        {
            let ghost before = contributions_view(contributions@);
            match (self.contributions.get(&i), other.contributions.get(&i)) {
                (Some(x), Some(y)) => {
                    assert(a.contains_key(i) && b.contains_key(i));
                    assert(a[i] == x@ && b[i] == y@);
                    if !x.c_i.equals(&y.c_i) {
                        assert(!commitments_agree(self.num_participants as nat, a, b));
                        return Err(DKGError::TranscriptDifferentCommitments);
                    }
                    assert(x.weight + y.weight <= u64::MAX);
                    let entry = DKGTranscriptParticipant {
                        c_i: x.c_i.clone(),
                        weight: x.weight + y.weight,
                        c_i_pok: SPOK::clone_signature(&x.c_i_pok),
                        signature_on_c_i: SSIG::clone_signature(&x.signature_on_c_i),
                    };
                    let ghost ev = entry@;
                    assert(ev == merge_entries(a[i], b[i]));
                    contributions.insert(i, entry);
                    assert(contributions_view(contributions@) =~= before.insert(i, ev));
                    assert(spec_merge((i + 1) as nat, a, b) =~= spec_merge(i as nat, a, b).insert(i, ev));
                },
                (Some(x), None) => {
                    assert(a.contains_key(i) && a[i] == x@ && !b.contains_key(i));
                    let entry = x.clone();
                    let ghost ev = entry@;
                    contributions.insert(i, entry);
                    assert(contributions_view(contributions@) =~= before.insert(i, ev));
                    assert(spec_merge((i + 1) as nat, a, b) =~= spec_merge(i as nat, a, b).insert(i, ev));
                },
                (None, Some(y)) => {
                    assert(b.contains_key(i) && b[i] == y@ && !a.contains_key(i));
                    let entry = y.clone();
                    let ghost ev = entry@;
                    contributions.insert(i, entry);
                    assert(contributions_view(contributions@) =~= before.insert(i, ev));
                    assert(spec_merge((i + 1) as nat, a, b) =~= spec_merge(i as nat, a, b).insert(i, ev));
                },
                (None, None) => {
                    assert(!a.contains_key(i) && !b.contains_key(i));
                    assert(spec_merge((i + 1) as nat, a, b) =~= spec_merge(i as nat, a, b));
                },
            }
            assert(contributions_view(contributions@) =~= spec_merge((i + 1) as nat, a, b));
            i += 1;
        }
        Ok(
            DKGTranscript {
                degree: self.degree,
                num_participants: self.num_participants,
                contributions,
                pvss_share: self.pvss_share.aggregate(&other.pvss_share),
            },
        )
    }
}

/// Folding transcripts succeeds either way or neither way: both need the
/// same degree and number of participants, and the same commitment for
/// every dealer they share.
pub proof fn lemma_aggregate_success_symmetric<A, B>(
    n: nat,
    a: Map<usize, (Seq<u8>, u64, A, B)>,
    b: Map<usize, (Seq<u8>, u64, A, B)>,
)
    ensures
        commitments_agree(n, a, b) == commitments_agree(n, b, a),
{
}

/// Folding two transcripts either way gives the same transcript, where both
/// succeed and the dealers they share have the same proofs and signatures in
/// both (the fold keeps those of its first transcript).
pub proof fn lemma_aggregate_commutes<SPOK: SignatureScheme, SSIG: SignatureScheme>(
    a: &DKGTranscript<SPOK, SSIG>,
    b: &DKGTranscript<SPOK, SSIG>,
    ab: &DKGTranscript<SPOK, SSIG>,
    ba: &DKGTranscript<SPOK, SSIG>,
)
    requires
        a.aggregated(b, ab),
        b.aggregated(a, ba),
        proofs_agree(a.entries(), b.entries()),
    ensures
        ab.degree == ba.degree,
        ab.num_participants == ba.num_participants,
        ab.entries() == ba.entries(),
        ab.pvss_share@ == ba.pvss_share@,
{
    lemma_merge_commutes(a.num_participants as nat, a.entries(), b.entries());
}

} // verus!
