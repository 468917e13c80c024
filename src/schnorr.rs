//! Schnorr signatures over either group of the curve.
use vstd::prelude::*;

use crate::algebra::{
    fr_canonical, fr_difference, fr_negated, fr_product, points_view, scalars_view, CurveGroup,
    Scalar, SCALAR_LEN,
};
use crate::codec::{get_point, get_scalar, lemma_point_round_trip, lemma_scalar_round_trip, take_point, take_scalar};
use crate::errors::SignatureError;
use crate::hash::{hash_to_field, spec_hash_to_field};
use crate::scheme::{
    fr_power, messages_view, signatures_view, BatchVerifiableSignatureScheme, SignatureScheme,
};
use rand_chacha::ChaCha20Rng;

verus! {

/// Personalization of the challenge hash, "SCHSIGNA".
pub open spec fn schnorr_personalization() -> Seq<u8> {
    seq![0x53u8, 0x43, 0x48, 0x53, 0x49, 0x47, 0x4e, 0x41]
}

fn personalization() -> (r: Vec<u8>)
    ensures
        r@ == schnorr_personalization(),
{
    let r = vec![0x53u8, 0x43, 0x48, 0x53, 0x49, 0x47, 0x4e, 0x41];
    assert(r@ =~= schnorr_personalization());
    r
}

/// The challenge of a signature: the hash of the message, the encoded
/// commitment and the encoded generator.
pub open spec fn schnorr_challenge(message: Seq<u8>, commitment: Seq<u8>, g: Seq<u8>) -> Option<
    Seq<u8>,
> {
    spec_hash_to_field(schnorr_personalization(), message + commitment + g)
}

/// Appends `src` to `dst`.
pub fn append_bytes(dst: &mut Vec<u8>, src: &[u8])
    ensures
        final(dst)@ == old(dst)@ + src@,
{
    let mut i: usize = 0;
    while i < src.len()
        invariant
            i <= src.len(),
            dst@ == old(dst)@ + src@.subrange(0, i as int),
        decreases src.len() - i,
    {
        dst.push(src[i]);
        i += 1;
        assert(dst@ =~= old(dst)@ + src@.subrange(0, i as int));
    }
    assert(src@.subrange(0, src@.len() as int) =~= src@);
}

/// The bytes that the challenge hashes.
fn challenge_input(message: &[u8], commitment: &Vec<u8>, g: &Vec<u8>) -> (r: Vec<u8>)
    ensures
        r@ == message@ + commitment@ + g@,
{
    let mut r: Vec<u8> = Vec::new();
    append_bytes(&mut r, message);
    append_bytes(&mut r, commitment.as_slice());
    append_bytes(&mut r, g.as_slice());
    assert(r@ =~= message@ + commitment@ + g@);
    r
}

/// The generator of the group.
pub struct SRS<C: CurveGroup> {
    pub g_public_key: C,
}

impl<C: CurveGroup> SRS<C> {
    /// The prime-subgroup generator of the group.
    pub fn setup(rng: &mut ChaCha20Rng) -> (r: Result<SRS<C>, SignatureError>)
        ensures
            r matches Ok(s) && s.g_public_key@ == C::spec_generator(),
    {
        Ok(SRS { g_public_key: C::prime_generator() })
    }

    pub fn duplicate(&self) -> (r: SRS<C>)
        ensures
            r.g_public_key@ == self.g_public_key@,
    {
        SRS { g_public_key: self.g_public_key.duplicate() }
    }
}

/// The Schnorr scheme over the group `C`.
pub struct SchnorrSignature<C: CurveGroup> {
    pub srs: SRS<C>,
}

impl<C: CurveGroup> Clone for SRS<C> {
    fn clone(&self) -> (r: SRS<C>)
        ensures
            r.g_public_key@ == self.g_public_key@,
    {
        self.duplicate()
    }
}

impl<C: CurveGroup> Clone for SchnorrSignature<C> {
    fn clone(&self) -> (r: SchnorrSignature<C>)
        ensures
            r.srs.g_public_key@ == self.srs.g_public_key@,
    {
        SchnorrSignature { srs: self.srs.duplicate() }
    }
}

/// Base `j` of a batch: the generator, the public key and the commitment of
/// signature `j / 3`, in turn.
pub open spec fn schnorr_batch_base(
    g: Seq<u8>,
    public_keys: Seq<Seq<u8>>,
    signatures: Seq<(Seq<u8>, Seq<u8>)>,
    j: int,
) -> Seq<u8> {
    let i = j / 3;
    if j % 3 == 0 {
        g
    } else if j % 3 == 1 {
        public_keys[i]
    } else {
        signatures[i].0
    }
}

/// Scalar `j` of a batch: the response, the challenge and minus one of
/// signature `j / 3`, in turn, weighted by the `j / 3`-th power of `alpha`.
pub open spec fn schnorr_batch_scalar(
    g: Seq<u8>,
    alpha: Seq<u8>,
    messages: Seq<Seq<u8>>,
    signatures: Seq<(Seq<u8>, Seq<u8>)>,
    j: int,
) -> Seq<u8> {
    let i = j / 3;
    let w = fr_power(alpha, i as nat);
    if j % 3 == 0 {
        fr_product(signatures[i].1, w)
    } else if j % 3 == 1 {
        fr_product(schnorr_challenge(messages[i], signatures[i].0, g).unwrap(), w)
    } else {
        fr_negated(w)
    }
}

impl<C: CurveGroup> SchnorrSignature<C> {
    /// Every signature has a challenge.
    pub open spec fn all_challenged(
        g: Seq<u8>,
        messages: Seq<Seq<u8>>,
        signatures: Seq<(Seq<u8>, Seq<u8>)>,
    ) -> bool {
        forall|i: int|
            0 <= i < messages.len() ==> (#[trigger] schnorr_challenge(
                messages[i],
                signatures[i].0,
                g,
            )).is_some()
    }

    /// Signs with the nonce `v`: the commitment `g * v` and the response
    /// `v - sk * challenge`.
    pub fn sign_with_nonce(&self, v: &Scalar, sk: &Scalar, message: &[u8]) -> (r: Result<
        (C, Scalar),
        SignatureError,
    >)
        ensures
            match r {
                Ok(sig) => {
                    &&& sig.0@ == C::spec_scaled(self.srs.g_public_key@, v@)
                    &&& schnorr_challenge(message@, sig.0@, self.srs.g_public_key@) matches Some(
                        h,
                    ) && sig.1@ == fr_difference(v@, fr_product(sk@, h))
                },
                Err(e) => e == SignatureError::HashAttemptsExhausted && schnorr_challenge(
                    message@,
                    C::spec_scaled(self.srs.g_public_key@, v@),
                    self.srs.g_public_key@,
                ).is_none(),
            },
    {
        let v_g = self.srs.g_public_key.mul_scalar(v);
        let v_g_bytes = v_g.encode();
        let g_bytes = self.srs.g_public_key.encode();
        let input = challenge_input(message, &v_g_bytes, &g_bytes);
        let pers = personalization();
        let h = match hash_to_field(&pers, input.as_slice()) {
            Ok(h) => h,
            Err(e) => return Err(e),
        };
        let r = v.minus(&sk.times(&h));
        Ok((v_g, r))
    }
}

impl<C: CurveGroup> SignatureScheme for SchnorrSignature<C> {
    type SRS = SRS<C>;

    type PublicKey = C;

    type Signature = (C, Scalar);

    open spec fn spec_public_key(&self, sk: Seq<u8>) -> Seq<u8> {
        C::spec_scaled(self.srs.g_public_key@, sk)
    }

    open spec fn spec_signed(&self, sk: Seq<u8>, message: Seq<u8>, sig: (Seq<u8>, Seq<u8>)) -> bool {
        exists|v: Seq<u8>|
            {
                &&& sig.0 == C::spec_scaled(self.srs.g_public_key@, v)
                &&& schnorr_challenge(message, sig.0, self.srs.g_public_key@) matches Some(h)
                    && sig.1 == fr_difference(v, fr_product(sk, h))
            }
    }

    open spec fn spec_verifies(&self, pk: Seq<u8>, message: Seq<u8>, sig: (Seq<u8>, Seq<u8>)) -> bool {
        match schnorr_challenge(message, sig.0, self.srs.g_public_key@) {
            Some(h) => C::spec_sum(
                C::spec_scaled(self.srs.g_public_key@, sig.1),
                C::spec_scaled(pk, h),
            ) == sig.0,
            None => false,
        }
    }

    open spec fn spec_verify_error(&self) -> SignatureError {
        SignatureError::SchnorrVerify
    }

    open spec fn spec_sign_succeeds(&self, message: Seq<u8>) -> bool {
        false
    }

    open spec fn spec_sign_uses_rng() -> bool {
        true
    }

    open spec fn spec_verify_hashes(&self, message: Seq<u8>, sig: (Seq<u8>, Seq<u8>)) -> bool {
        schnorr_challenge(message, sig.0, self.srs.g_public_key@).is_some()
    }

    fn from_srs(srs: SRS<C>) -> (r: Result<Self, SignatureError>) {
        Ok(SchnorrSignature { srs })
    }

    fn generate_keypair(&self, rng: &mut ChaCha20Rng) -> (r: Result<(Scalar, C), SignatureError>) {
        let sk = Scalar::random(rng);
        let pk = self.srs.g_public_key.mul_scalar(&sk);
        Ok((sk, pk))
    }

    fn from_sk(&self, sk: &Scalar) -> (r: Result<(Scalar, C), SignatureError>) {
        Ok((sk.clone(), self.srs.g_public_key.mul_scalar(sk)))
    }

    fn sign(&self, rng: &mut ChaCha20Rng, sk: &Scalar, message: &[u8]) -> (r: Result<
        (C, Scalar),
        SignatureError,
    >) {
        let v = Scalar::random(rng);
        let r = self.sign_with_nonce(&v, sk, message);
        if let Ok(sig) = &r {
            assert(sig.0@ == C::spec_scaled(self.srs.g_public_key@, v@));
        }
        r
    }

    fn verify(&self, public_key: &C, message: &[u8], signature: &(C, Scalar)) -> (r: Result<
        (),
        SignatureError,
    >) {
        let v_g_bytes = signature.0.encode();
        let g_bytes = self.srs.g_public_key.encode();
        let input = challenge_input(message, &v_g_bytes, &g_bytes);
        let pers = personalization();
        let h = match hash_to_field(&pers, input.as_slice()) {
            Ok(h) => h,
            Err(e) => return Err(e),
        };
        let check = self.srs.g_public_key.mul_scalar(&signature.1).add_point(
            &public_key.mul_scalar(&h),
        );
        if !check.same(&signature.0) {
            return Err(SignatureError::SchnorrVerify);
        }
        Ok(())
    }

    fn clone_signature(s: &(C, Scalar)) -> (r: (C, Scalar)) {
        (s.0.duplicate(), s.1.clone())
    }

    open spec fn spec_signature_bytes(sig: (Seq<u8>, Seq<u8>)) -> Seq<u8> {
        sig.0 + sig.1
    }

    open spec fn spec_take_signature(b: Seq<u8>) -> Option<((Seq<u8>, Seq<u8>), Seq<u8>)> {
        match take_point::<C>(b) {
            Some((p, r)) => match take_scalar(r) {
                Some((k, r2)) => Some(((p, k), r2)),
                None => None,
            },
            None => None,
        }
    }

    open spec fn spec_valid_signature(sig: (Seq<u8>, Seq<u8>)) -> bool {
        &&& C::spec_canonical(sig.0) == Some(sig.0) && sig.0.len() == C::spec_len()
        &&& fr_canonical(sig.1) == Some(sig.1) && sig.1.len() == SCALAR_LEN
    }

    proof fn lemma_signature_round_trip(sig: (Seq<u8>, Seq<u8>), rest: Seq<u8>) {
        assert(sig.0 + sig.1 + rest =~= sig.0 + (sig.1 + rest));
        lemma_point_round_trip::<C>(sig.0, sig.1 + rest);
        lemma_scalar_round_trip(sig.1, rest);
    }

    fn encode_signature(s: &(C, Scalar)) -> (r: Vec<u8>) {
        let mut out = s.0.encode();
        let k = s.1.to_bytes();
        append_bytes(&mut out, k.as_slice());
        out
    }

    fn decode_signature(b: &[u8], pos: usize) -> (r: Option<((C, Scalar), usize)>) {
        let (p, at_first) = match get_point::<C>(b, pos) {
            Some(x) => x,
            None => return None,
        };
        let (k, at_second) = match get_scalar(b, at_first) {
            Some(x) => x,
            None => return None,
        };
        Some(((p, k), at_second))
    }
}

impl<C: CurveGroup> BatchVerifiableSignatureScheme for SchnorrSignature<C> {
    open spec fn spec_batch_verifies(
        &self,
        alpha: Seq<u8>,
        public_keys: Seq<Seq<u8>>,
        messages: Seq<Seq<u8>>,
        signatures: Seq<(Seq<u8>, Seq<u8>)>,
    ) -> bool {
        let g = self.srs.g_public_key@;
        let n = (3 * public_keys.len()) as nat;
        &&& Self::all_challenged(g, messages, signatures)
        &&& C::spec_msm(
            Seq::new(n, |j: int| schnorr_batch_base(g, public_keys, signatures, j)),
            Seq::new(n, |j: int| schnorr_batch_scalar(g, alpha, messages, signatures, j)),
        ) == C::spec_identity()
    }

    open spec fn spec_batch_error(&self) -> SignatureError {
        SignatureError::SchnorrVerify
    }

    fn batch_verify_with(
        &self,
        alpha: &Scalar,
        public_keys: &Vec<C>,
        messages: &Vec<Vec<u8>>,
        signatures: &Vec<(C, Scalar)>,
    ) -> (r: Result<(), SignatureError>) {
        if public_keys.len() != messages.len() || public_keys.len() != signatures.len() {
            return Err(
                SignatureError::BatchVerification(
                    public_keys.len(),
                    messages.len(),
                    signatures.len(),
                ),
            );
        }
        let ghost g = self.srs.g_public_key@;
        let ghost pks = points_view(public_keys@);
        let ghost msgs = messages_view(messages@);
        let ghost sigs = signatures_view(signatures@);
        let pers = personalization();
        let g_bytes = self.srs.g_public_key.encode();
        let mut weight = Scalar::one();
        let mut bases: Vec<C> = Vec::new();
        let mut scalars: Vec<Scalar> = Vec::new();
        let mut i: usize = 0;
        while i < public_keys.len()
            invariant
                i <= public_keys.len(),
                public_keys.len() == messages.len(),
                public_keys.len() == signatures.len(),
                pers@ == schnorr_personalization(),
                g == self.srs.g_public_key@,
                g_bytes@ == g,
                pks == points_view(public_keys@),
                msgs == messages_view(messages@),
                sigs == signatures_view(signatures@),
                weight@ == fr_power(alpha@, i as nat),
                bases.len() == 3 * i,
                scalars.len() == 3 * i,
                forall|j: int|
                    0 <= j < i ==> (#[trigger] schnorr_challenge(msgs[j], sigs[j].0, g)).is_some(),
                forall|j: int|
                    0 <= j < 3 * i ==> (#[trigger] points_view(bases@)[j]) == schnorr_batch_base(
                        g,
                        pks,
                        sigs,
                        j,
                    ),
                forall|j: int|
                    0 <= j < 3 * i ==> (#[trigger] scalars_view(scalars@)[j])
                        == schnorr_batch_scalar(g, alpha@, msgs, sigs, j),
            decreases public_keys.len() - i,
        {
            assert(msgs[i as int] == messages@[i as int]@);
            assert(sigs[i as int] == signatures@[i as int]@);
            assert(pks[i as int] == public_keys@[i as int]@);
            let v_g_bytes = signatures[i].0.encode();
            let input = challenge_input(messages[i].as_slice(), &v_g_bytes, &g_bytes);
            let h = match hash_to_field(&pers, input.as_slice()) {
                Ok(h) => h,
                Err(e) => {
                    assert(schnorr_challenge(msgs[i as int], sigs[i as int].0, g).is_none());
                    return Err(e);
                },
            };
            let ghost old_bases = points_view(bases@);
            let ghost old_scalars = scalars_view(scalars@);
            bases.push(self.srs.g_public_key.duplicate());
            scalars.push(signatures[i].1.times(&weight));
            bases.push(public_keys[i].duplicate());
            scalars.push(h.times(&weight));
            bases.push(signatures[i].0.duplicate());
            scalars.push(weight.negate());
            proof {
                assert forall|j: int| 0 <= j < 3 * (i + 1) implies (#[trigger] points_view(
                    bases@,
                )[j]) == schnorr_batch_base(g, pks, sigs, j) by {
                    if j < 3 * i {
                        assert(points_view(bases@)[j] == old_bases[j]);
                    } else {
                        assert(j / 3 == i);
                    }
                }
                assert forall|j: int| 0 <= j < 3 * (i + 1) implies (#[trigger] scalars_view(
                    scalars@,
                )[j]) == schnorr_batch_scalar(g, alpha@, msgs, sigs, j) by {
                    if j < 3 * i {
                        assert(scalars_view(scalars@)[j] == old_scalars[j]);
                    } else {
                        assert(j / 3 == i);
                    }
                }
            }
            weight = weight.times(alpha);
            i += 1;
        }
        let ghost n = (3 * pks.len()) as nat;
        assert(points_view(bases@) =~= Seq::new(n, |j: int| schnorr_batch_base(g, pks, sigs, j)));
        assert(scalars_view(scalars@) =~= Seq::new(
            n,
            |j: int| schnorr_batch_scalar(g, alpha@, msgs, sigs, j),
        ));
        let check = C::multi_scalar_mul(&bases, &scalars);
        if !check.is_zero() {
            return Err(SignatureError::SchnorrVerify);
        }
        Ok(())
    }

    fn batch_verify(
        &self,
        rng: &mut ChaCha20Rng,
        public_keys: &Vec<C>,
        messages: &Vec<Vec<u8>>,
        signatures: &Vec<(C, Scalar)>,
    ) -> (r: Result<(), SignatureError>) {
        if public_keys.len() != messages.len() || public_keys.len() != signatures.len() {
            return Err(
                SignatureError::BatchVerification(
                    public_keys.len(),
                    messages.len(),
                    signatures.len(),
                ),
            );
        }
        let alpha = Scalar::random(rng);
        let r = self.batch_verify_with(&alpha, public_keys, messages, signatures);
        assert(r.is_ok() <==> self.spec_batch_verifies(
            alpha@,
            points_view(public_keys@),
            messages_view(messages@),
            signatures_view(signatures@),
        ));
        r
    }
}

} // verus!
