//! BLS signatures in either orientation of the pairing: public keys in G2
//! and signatures in G1, or the reverse.
use vstd::prelude::*;

use crate::algebra::{
    g1_scaled, pairing_check, pairing_product_is_one, pairs_view, points_view, CurveGroup, G1, G2,
    Scalar,
};
use crate::codec::{get_point, lemma_point_round_trip, take_point};
use crate::errors::SignatureError;
use crate::hash::{hash_to_group, spec_hash_to_group};
use crate::scheme::{
    fr_power, messages_view, signatures_view, AggregatableSignatureScheme,
    BatchVerifiableSignatureScheme, SignatureScheme,
};
use rand_chacha::ChaCha20Rng;

verus! {

/// Personalization of the message hash, "BLSSIGNA".
pub open spec fn bls_personalization() -> Seq<u8> {
    seq![0x42u8, 0x4c, 0x53, 0x53, 0x49, 0x47, 0x4e, 0x41]
}

fn personalization() -> (r: Vec<u8>)
    ensures
        r@ == bls_personalization(),
{
    let r = vec![0x42u8, 0x4c, 0x53, 0x53, 0x49, 0x47, 0x4e, 0x41];
    assert(r@ =~= bls_personalization());
    r
}

/// An orientation of BLS: which group holds the public keys and which the
/// signatures, and how a pair of them enters the pairing.
pub trait BLSSignatureScheme: Sized {
    type PublicKeyGroup: CurveGroup;

    type SignatureGroup: CurveGroup;

    /// A public-key-side and a signature-side point, as a pair of G1 and G2.
    spec fn spec_pair(pk: Seq<u8>, sig: Seq<u8>) -> (Seq<u8>, Seq<u8>);

    /// As `spec_pair`, with the G1 point multiplied by `w`.
    spec fn spec_weighted_pair(pk: Seq<u8>, sig: Seq<u8>, w: Seq<u8>) -> (Seq<u8>, Seq<u8>);

    fn pair(pk: &Self::PublicKeyGroup, sig: &Self::SignatureGroup) -> (r: (G1, G2))
        ensures
            (r.0@, r.1@) == Self::spec_pair(pk@, sig@),
    ;

    fn weighted_pair(pk: &Self::PublicKeyGroup, sig: &Self::SignatureGroup, w: &Scalar) -> (r: (
        G1,
        G2,
    ))
        ensures
            (r.0@, r.1@) == Self::spec_weighted_pair(pk@, sig@, w@),
    ;
}

/// Public keys in G2, signatures in G1.
pub struct BLSSignatureG1;

/// Public keys in G1, signatures in G2.
pub struct BLSSignatureG2;

impl BLSSignatureScheme for BLSSignatureG1 {
    type PublicKeyGroup = G2;

    type SignatureGroup = G1;

    open spec fn spec_pair(pk: Seq<u8>, sig: Seq<u8>) -> (Seq<u8>, Seq<u8>) {
        (sig, pk)
    }

    open spec fn spec_weighted_pair(pk: Seq<u8>, sig: Seq<u8>, w: Seq<u8>) -> (Seq<u8>, Seq<u8>) {
        (g1_scaled(sig, w), pk)
    }

    fn pair(pk: &G2, sig: &G1) -> (r: (G1, G2)) {
        (sig.clone(), pk.clone())
    }

    fn weighted_pair(pk: &G2, sig: &G1, w: &Scalar) -> (r: (G1, G2)) {
        (sig.times(w), pk.clone())
    }
}

impl BLSSignatureScheme for BLSSignatureG2 {
    type PublicKeyGroup = G1;

    type SignatureGroup = G2;

    open spec fn spec_pair(pk: Seq<u8>, sig: Seq<u8>) -> (Seq<u8>, Seq<u8>) {
        (pk, sig)
    }

    open spec fn spec_weighted_pair(pk: Seq<u8>, sig: Seq<u8>, w: Seq<u8>) -> (Seq<u8>, Seq<u8>) {
        (g1_scaled(pk, w), sig)
    }

    fn pair(pk: &G1, sig: &G2) -> (r: (G1, G2)) {
        (pk.clone(), sig.clone())
    }

    fn weighted_pair(pk: &G1, sig: &G2, w: &Scalar) -> (r: (G1, G2)) {
        (pk.times(w), sig.clone())
    }
}

/// The generators of the two groups of an orientation.
pub struct SRS<B: BLSSignatureScheme> {
    pub g_public_key: B::PublicKeyGroup,
    pub g_signature: B::SignatureGroup,
}

impl<B: BLSSignatureScheme> SRS<B> {
    /// The prime-subgroup generators of the two groups.
    pub fn setup(rng: &mut ChaCha20Rng) -> (r: Result<SRS<B>, SignatureError>)
        ensures
            r matches Ok(s) && s.g_public_key@ == B::PublicKeyGroup::spec_generator()
                && s.g_signature@ == B::SignatureGroup::spec_generator(),
    {
        Ok(SRS {
            g_public_key: B::PublicKeyGroup::prime_generator(),
            g_signature: B::SignatureGroup::prime_generator(),
        })
    }

    pub fn duplicate(&self) -> (r: SRS<B>)
        ensures
            r.g_public_key@ == self.g_public_key@,
            r.g_signature@ == self.g_signature@,
    {
        SRS { g_public_key: self.g_public_key.duplicate(), g_signature: self.g_signature.duplicate() }
    }
}

/// The BLS scheme in orientation `B`.
pub struct BLSSignature<B: BLSSignatureScheme> {
    pub srs: SRS<B>,
}

impl<B: BLSSignatureScheme> Clone for SRS<B> {
    fn clone(&self) -> (r: SRS<B>)
        ensures
            r.g_public_key@ == self.g_public_key@,
            r.g_signature@ == self.g_signature@,
    {
        self.duplicate()
    }
}

impl<B: BLSSignatureScheme> Clone for BLSSignature<B> {
    fn clone(&self) -> (r: BLSSignature<B>)
        ensures
            r.srs.g_public_key@ == self.srs.g_public_key@,
            r.srs.g_signature@ == self.srs.g_signature@,
    {
        BLSSignature { srs: self.srs.duplicate() }
    }
}

/// Sum of the first `n` points.
pub open spec fn spec_point_sum<C: CurveGroup>(points: Seq<Seq<u8>>, n: nat) -> Seq<u8>
    decreases n,
{
    if n == 0 {
        C::spec_identity()
    } else {
        C::spec_sum(spec_point_sum::<C>(points, (n - 1) as nat), points[n - 1])
    }
}

/// Pair `j` of a batch: the message pair of signature `j / 2` when `j` is
/// even, its signature pair when odd, weighted by the `j / 2`-th power of
/// `alpha`.
pub open spec fn bls_batch_pair<B: BLSSignatureScheme>(
    g_public_key: Seq<u8>,
    alpha: Seq<u8>,
    public_keys: Seq<Seq<u8>>,
    messages: Seq<Seq<u8>>,
    signatures: Seq<Seq<u8>>,
    j: int,
) -> (Seq<u8>, Seq<u8>) {
    let i = j / 2;
    let w = fr_power(alpha, i as nat);
    if j % 2 == 0 {
        B::spec_weighted_pair(
            public_keys[i],
            spec_hash_to_group::<B::SignatureGroup>(bls_personalization(), messages[i]).unwrap(),
            w,
        )
    } else {
        B::spec_weighted_pair(
            B::PublicKeyGroup::spec_negated(g_public_key),
            signatures[i],
            w,
        )
    }
}

impl<B: BLSSignatureScheme> BLSSignature<B> {
    /// Whether every message hashes into the signature group.
    pub open spec fn all_hashed(messages: Seq<Seq<u8>>) -> bool {
        forall|i: int|
            0 <= i < messages.len() ==> (#[trigger] spec_hash_to_group::<B::SignatureGroup>(
                bls_personalization(),
                messages[i],
            )).is_some()
    }
}

impl<B: BLSSignatureScheme> SignatureScheme for BLSSignature<B> {
    type SRS = SRS<B>;

    type PublicKey = B::PublicKeyGroup;

    type Signature = B::SignatureGroup;

    open spec fn spec_public_key(&self, sk: Seq<u8>) -> Seq<u8> {
        B::PublicKeyGroup::spec_scaled(self.srs.g_public_key@, sk)
    }

    open spec fn spec_signed(&self, sk: Seq<u8>, message: Seq<u8>, sig: Seq<u8>) -> bool {
        match spec_hash_to_group::<B::SignatureGroup>(bls_personalization(), message) {
            Some(h) => sig == B::SignatureGroup::spec_scaled(h, sk),
            None => false,
        }
    }

    open spec fn spec_verifies(&self, pk: Seq<u8>, message: Seq<u8>, sig: Seq<u8>) -> bool {
        match spec_hash_to_group::<B::SignatureGroup>(bls_personalization(), message) {
            Some(h) => pairing_product_is_one(
                seq![
                    B::spec_pair(pk, h),
                    B::spec_pair(B::PublicKeyGroup::spec_negated(self.srs.g_public_key@), sig),
                ],
            ),
            None => false,
        }
    }

    open spec fn spec_verify_error(&self) -> SignatureError {
        SignatureError::BLSVerify
    }

    open spec fn spec_sign_succeeds(&self, message: Seq<u8>) -> bool {
        spec_hash_to_group::<B::SignatureGroup>(bls_personalization(), message).is_some()
    }

    open spec fn spec_sign_uses_rng() -> bool {
        false
    }

    open spec fn spec_verify_hashes(&self, message: Seq<u8>, sig: Seq<u8>) -> bool {
        spec_hash_to_group::<B::SignatureGroup>(bls_personalization(), message).is_some()
    }

    fn from_srs(srs: SRS<B>) -> (r: Result<Self, SignatureError>) {
        Ok(BLSSignature { srs })
    }

    fn generate_keypair(&self, rng: &mut ChaCha20Rng) -> (r: Result<
        (Scalar, B::PublicKeyGroup),
        SignatureError,
    >) {
        let sk = Scalar::random(rng);
        let pk = self.srs.g_public_key.mul_scalar(&sk);
        Ok((sk, pk))
    }

    fn from_sk(&self, sk: &Scalar) -> (r: Result<(Scalar, B::PublicKeyGroup), SignatureError>) {
        Ok((sk.clone(), self.srs.g_public_key.mul_scalar(sk)))
    }

    fn sign(&self, rng: &mut ChaCha20Rng, sk: &Scalar, message: &[u8]) -> (r: Result<
        B::SignatureGroup,
        SignatureError,
    >) {
        let pers = personalization();
        match hash_to_group::<B::SignatureGroup>(&pers, message) {
            Ok(h) => Ok(h.mul_scalar(sk)),
            Err(e) => Err(e),
        }
    }

    fn verify(&self, public_key: &B::PublicKeyGroup, message: &[u8], signature: &B::SignatureGroup) -> (r:
        Result<(), SignatureError>) {
        let pers = personalization();
        let h = match hash_to_group::<B::SignatureGroup>(&pers, message) {
            Ok(h) => h,
            Err(e) => return Err(e),
        };
        let neg_g = self.srs.g_public_key.neg_point();
        let pairs = vec![B::pair(public_key, &h), B::pair(&neg_g, signature)];
        assert(pairs_view(pairs@) =~= seq![
            B::spec_pair(public_key@, h@),
            B::spec_pair(B::PublicKeyGroup::spec_negated(self.srs.g_public_key@), signature@),
        ]);
        if !pairing_check(&pairs) {
            return Err(SignatureError::BLSVerify);
        }
        Ok(())
    }

    fn clone_signature(s: &B::SignatureGroup) -> (r: B::SignatureGroup) {
        s.duplicate()
    }

    open spec fn spec_signature_bytes(sig: Seq<u8>) -> Seq<u8> {
        sig
    }

    open spec fn spec_take_signature(b: Seq<u8>) -> Option<(Seq<u8>, Seq<u8>)> {
        take_point::<B::SignatureGroup>(b)
    }

    open spec fn spec_valid_signature(sig: Seq<u8>) -> bool {
        B::SignatureGroup::spec_canonical(sig) == Some(sig) && sig.len()
            == B::SignatureGroup::spec_len()
    }

    proof fn lemma_signature_round_trip(sig: Seq<u8>, rest: Seq<u8>) {
        lemma_point_round_trip::<B::SignatureGroup>(sig, rest);
    }

    fn encode_signature(s: &B::SignatureGroup) -> (r: Vec<u8>) {
        s.encode()
    }

    fn decode_signature(b: &[u8], pos: usize) -> (r: Option<(B::SignatureGroup, usize)>) {
        get_point::<B::SignatureGroup>(b, pos)
    }
}

impl<B: BLSSignatureScheme> AggregatableSignatureScheme for BLSSignature<B> {
    open spec fn spec_aggregate_keys(keys: Seq<Seq<u8>>, n: nat) -> Seq<u8> {
        spec_point_sum::<B::PublicKeyGroup>(keys, n)
    }

    open spec fn spec_aggregate_signatures(sigs: Seq<Seq<u8>>, n: nat) -> Seq<u8> {
        spec_point_sum::<B::SignatureGroup>(sigs, n)
    }

    fn aggregate_public_keys(&self, public_keys: &Vec<B::PublicKeyGroup>) -> (r: Result<
        B::PublicKeyGroup,
        SignatureError,
    >) {
        Ok(sum_points(public_keys))
    }

    fn aggregate_signatures(&self, signatures: &Vec<B::SignatureGroup>) -> (r: Result<
        B::SignatureGroup,
        SignatureError,
    >) {
        Ok(sum_points(signatures))
    }
}

/// The sum of a sequence of points, starting from the identity.
pub fn sum_points<C: CurveGroup>(points: &Vec<C>) -> (r: C)
    ensures
        r@ == spec_point_sum::<C>(points_view(points@), points.len() as nat),
{
    let mut acc = C::zero();
    let mut i: usize = 0;
    while i < points.len()
        invariant
            i <= points.len(),
            acc@ == spec_point_sum::<C>(points_view(points@), i as nat),
        decreases points.len() - i,
    {
        acc = acc.add_point(&points[i]);
        i += 1;
    }
    acc
}

impl<B: BLSSignatureScheme> BatchVerifiableSignatureScheme for BLSSignature<B> {
    open spec fn spec_batch_verifies(
        &self,
        alpha: Seq<u8>,
        public_keys: Seq<Seq<u8>>,
        messages: Seq<Seq<u8>>,
        signatures: Seq<Seq<u8>>,
    ) -> bool {
        &&& Self::all_hashed(messages)
        &&& pairing_product_is_one(
            Seq::new(
                (2 * public_keys.len()) as nat,
                |j: int|
                    bls_batch_pair::<B>(
                        self.srs.g_public_key@,
                        alpha,
                        public_keys,
                        messages,
                        signatures,
                        j,
                    ),
            ),
        )
    }

    open spec fn spec_batch_error(&self) -> SignatureError {
        SignatureError::BLSVerify
    }

    fn batch_verify_with(
        &self,
        alpha: &Scalar,
        public_keys: &Vec<B::PublicKeyGroup>,
        messages: &Vec<Vec<u8>>,
        signatures: &Vec<B::SignatureGroup>,
    ) -> (r: Result<(), SignatureError>) {
        if public_keys.len() != messages.len() || public_keys.len() != signatures.len() {
            return Err(
                SignatureError::BatchVerification(
                    public_keys.len(),
                    messages.len(),
                    signatures.len(),
                ),
            );
        }
        let ghost g = self.srs.g_public_key@;
        let ghost pks = points_view(public_keys@);
        let ghost msgs = messages_view(messages@);
        let ghost sigs = signatures_view(signatures@);
        let pers = personalization();
        let neg_g = self.srs.g_public_key.neg_point();
        let mut weight = Scalar::one();
        let mut pairs: Vec<(G1, G2)> = Vec::new();
        let mut i: usize = 0;
        while i < public_keys.len()
            invariant
                i <= public_keys.len(),
                public_keys.len() == messages.len(),
                public_keys.len() == signatures.len(),
                pers@ == bls_personalization(),
                neg_g@ == B::PublicKeyGroup::spec_negated(g),
                g == self.srs.g_public_key@,
                pks == points_view(public_keys@),
                msgs == messages_view(messages@),
                sigs == signatures_view(signatures@),
                weight@ == fr_power(alpha@, i as nat),
                pairs.len() == 2 * i,
                forall|j: int| 0 <= j < i ==> (#[trigger] spec_hash_to_group::<B::SignatureGroup>(
                    bls_personalization(),
                    msgs[j],
                )).is_some(),
                forall|j: int|
                    0 <= j < 2 * i ==> (#[trigger] pairs_view(pairs@)[j]) == bls_batch_pair::<B>(
                        g,
                        alpha@,
                        pks,
                        msgs,
                        sigs,
                        j,
                    ),
            decreases public_keys.len() - i,
        {
            assert(msgs[i as int] == messages@[i as int]@);
            let h = match hash_to_group::<B::SignatureGroup>(&pers, messages[i].as_slice()) {
                Ok(h) => h,
                Err(e) => {
                    assert(spec_hash_to_group::<B::SignatureGroup>(
                        bls_personalization(),
                        msgs[i as int],
                    ).is_none());
                    return Err(e);
                },
            };
            let ghost old_pairs = pairs_view(pairs@);
            pairs.push(B::weighted_pair(&public_keys[i], &h, &weight));
            pairs.push(B::weighted_pair(&neg_g, &signatures[i], &weight));
            proof {
                assert(pks[i as int] == public_keys@[i as int]@);
                assert(sigs[i as int] == signatures@[i as int]@);
                assert forall|j: int| 0 <= j < 2 * (i + 1) implies (#[trigger] pairs_view(
                    pairs@,
                )[j]) == bls_batch_pair::<B>(g, alpha@, pks, msgs, sigs, j) by {
                    if j < 2 * i {
                        assert(pairs_view(pairs@)[j] == old_pairs[j]);
                    } else if j == 2 * i {
                        assert(j / 2 == i);
                        assert(j % 2 == 0);
                    } else {
                        assert(j / 2 == i);
                        assert(j % 2 == 1);
                    }
                }
            }
            weight = weight.times(alpha);
            i += 1;
        }
        let ghost expected = Seq::new(
            (2 * pks.len()) as nat,
            |j: int| bls_batch_pair::<B>(g, alpha@, pks, msgs, sigs, j),
        );
        assert(pairs_view(pairs@) =~= expected);
        if !pairing_check(&pairs) {
            return Err(SignatureError::BLSVerify);
        }
        Ok(())
    }

    fn batch_verify(
        &self,
        rng: &mut ChaCha20Rng,
        public_keys: &Vec<B::PublicKeyGroup>,
        messages: &Vec<Vec<u8>>,
        signatures: &Vec<B::SignatureGroup>,
    ) -> (r: Result<(), SignatureError>) {
        if public_keys.len() != messages.len() || public_keys.len() != signatures.len() {
            return Err(
                SignatureError::BatchVerification(
                    public_keys.len(),
                    messages.len(),
                    signatures.len(),
                ),
            );
        }
        let alpha = Scalar::random(rng);
        let r = self.batch_verify_with(&alpha, public_keys, messages, signatures);
        assert(r.is_ok() <==> self.spec_batch_verifies(
            alpha@,
            points_view(public_keys@),
            messages_view(messages@),
            signatures_view(signatures@),
        ));
        r
    }
}

} // verus!
