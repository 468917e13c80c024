//! The capabilities of a signature scheme: keys, signing, verification and
//! batch verification.
use vstd::prelude::*;

use crate::algebra::{fr_of_u64, fr_product, points_view, CurveGroup, Scalar};
use crate::errors::SignatureError;
use rand_chacha::ChaCha20Rng;

verus! {

/// `alpha` raised to the power `k`.
pub open spec fn fr_power(alpha: Seq<u8>, k: nat) -> Seq<u8>
    decreases k,
{
    if k == 0 {
        fr_of_u64(1)
    } else {
        fr_product(fr_power(alpha, (k - 1) as nat), alpha)
    }
}

/// The contents of a sequence of messages.
pub open spec fn messages_view(m: Seq<Vec<u8>>) -> Seq<Seq<u8>> {
    m.map_values(|v: Vec<u8>| v@)
}

/// The views of a sequence of signatures.
pub open spec fn signatures_view<S: View>(s: Seq<S>) -> Seq<S::V> {
    s.map_values(|v: S| v@)
}

/// A signature scheme whose secrets are scalars.
pub trait SignatureScheme: Sized {
    type SRS;

    type PublicKey: CurveGroup;

    type Signature: View;

    /// The public key of the secret `sk`.
    spec fn spec_public_key(&self, sk: Seq<u8>) -> Seq<u8>;

    /// `sig` is a signature that `sign` can give for `sk` and `message`.
    spec fn spec_signed(&self, sk: Seq<u8>, message: Seq<u8>, sig: <Self::Signature as View>::V) -> bool;

    /// `sig` verifies for `pk` and `message`.
    spec fn spec_verifies(&self, pk: Seq<u8>, message: Seq<u8>, sig: <Self::Signature as View>::V) -> bool;

    /// The error that a failed verification reports.
    spec fn spec_verify_error(&self) -> SignatureError;

    /// Signing `message` is sure to succeed, whatever the random draws.
    spec fn spec_sign_succeeds(&self, message: Seq<u8>) -> bool;

    /// Signing draws from the random number generator.
    spec fn spec_sign_uses_rng() -> bool;

    /// The hash that verifying `sig` on `message` needs can be computed.
    spec fn spec_verify_hashes(&self, message: Seq<u8>, sig: <Self::Signature as View>::V) -> bool;

    fn from_srs(srs: Self::SRS) -> (r: Result<Self, SignatureError>)
        ensures
            r.is_ok(),
    ;

    fn generate_keypair(&self, rng: &mut ChaCha20Rng) -> (r: Result<
        (Scalar, Self::PublicKey),
        SignatureError,
    >)
        ensures
            r matches Ok(kp) && kp.1@ == self.spec_public_key(kp.0@),
    ;

    fn from_sk(&self, sk: &Scalar) -> (r: Result<(Scalar, Self::PublicKey), SignatureError>)
        ensures
            r matches Ok(kp) && kp.0@ == sk@ && kp.1@ == self.spec_public_key(sk@),
    ;

    fn sign(&self, rng: &mut ChaCha20Rng, sk: &Scalar, message: &[u8]) -> (r: Result<
        Self::Signature,
        SignatureError,
    >)
        ensures
            match r {
                Ok(s) => self.spec_signed(sk@, message@, s@),
                Err(e) => e == SignatureError::HashAttemptsExhausted,
            },
            self.spec_sign_succeeds(message@) ==> r.is_ok(),
            !Self::spec_sign_uses_rng() ==> *final(rng) == *old(rng),
    ;

    fn verify(&self, public_key: &Self::PublicKey, message: &[u8], signature: &Self::Signature) -> (r:
        Result<(), SignatureError>)
        ensures
            r.is_ok() <==> self.spec_verifies(public_key@, message@, signature@),
            r matches Err(e) ==> if self.spec_verify_hashes(message@, signature@) {
                e == self.spec_verify_error()
            } else {
                e == SignatureError::HashAttemptsExhausted
            },
    ;

    fn clone_signature(s: &Self::Signature) -> (r: Self::Signature)
        ensures
            r@ == s@,
    ;

    /// The wire encoding of a signature.
    spec fn spec_signature_bytes(sig: <Self::Signature as View>::V) -> Seq<u8>;

    /// A signature read from the front of `b`, and what follows it.
    spec fn spec_take_signature(b: Seq<u8>) -> Option<(<Self::Signature as View>::V, Seq<u8>)>;

    /// Every part of the signature is a canonical encoding.
    spec fn spec_valid_signature(sig: <Self::Signature as View>::V) -> bool;

    /// Reading back the encoding of a signature gives the signature.
    proof fn lemma_signature_round_trip(sig: <Self::Signature as View>::V, rest: Seq<u8>)
        requires
            Self::spec_valid_signature(sig),
        ensures
            Self::spec_take_signature(Self::spec_signature_bytes(sig) + rest) == Some((sig, rest)),
    ;

    fn encode_signature(s: &Self::Signature) -> (r: Vec<u8>)
        ensures
            r@ == Self::spec_signature_bytes(s@),
            Self::spec_valid_signature(s@),
    ;

    fn decode_signature(b: &[u8], pos: usize) -> (r: Option<(Self::Signature, usize)>)
        requires
            pos <= b@.len(),
        ensures
            match Self::spec_take_signature(b@.skip(pos as int)) {
                Some((v, rest)) => r matches Some((s, np)) && s@ == v && np <= b@.len() && b@.skip(
                    np as int,
                ) == rest,
                None => r.is_none(),
            },
    ;
}

/// A scheme whose public keys and signatures add up.
pub trait AggregatableSignatureScheme: SignatureScheme {
    /// The sum of the first `n` public keys.
    spec fn spec_aggregate_keys(keys: Seq<Seq<u8>>, n: nat) -> Seq<u8>;

    /// The sum of the first `n` signatures.
    spec fn spec_aggregate_signatures(sigs: Seq<<Self::Signature as View>::V>, n: nat) -> <Self::Signature as View>::V;

    fn aggregate_public_keys(&self, public_keys: &Vec<Self::PublicKey>) -> (r: Result<
        Self::PublicKey,
        SignatureError,
    >)
        ensures
            r matches Ok(k) && k@ == Self::spec_aggregate_keys(
                points_view(public_keys@),
                public_keys.len() as nat,
            ),
    ;

    fn aggregate_signatures(&self, signatures: &Vec<Self::Signature>) -> (r: Result<
        Self::Signature,
        SignatureError,
    >)
        ensures
            r matches Ok(s) && s@ == Self::spec_aggregate_signatures(
                signatures_view(signatures@),
                signatures.len() as nat,
            ),
    ;
}

/// A scheme that checks many signatures at once, each weighted by a power
/// of a random scalar.
pub trait BatchVerifiableSignatureScheme: SignatureScheme {
    /// The weighted check with weights the powers of `alpha` holds.
    spec fn spec_batch_verifies(
        &self,
        alpha: Seq<u8>,
        public_keys: Seq<Seq<u8>>,
        messages: Seq<Seq<u8>>,
        signatures: Seq<<Self::Signature as View>::V>,
    ) -> bool;

    /// The error that a failed batch reports.
    spec fn spec_batch_error(&self) -> SignatureError;

    /// Batch verification with the given weight.
    fn batch_verify_with(
        &self,
        alpha: &Scalar,
        public_keys: &Vec<Self::PublicKey>,
        messages: &Vec<Vec<u8>>,
        signatures: &Vec<Self::Signature>,
    ) -> (r: Result<(), SignatureError>)
        ensures
            public_keys.len() != messages.len() || public_keys.len() != signatures.len() ==> r
                == Err::<(), SignatureError>(
                SignatureError::BatchVerification(
                    public_keys.len(),
                    messages.len(),
                    signatures.len(),
                ),
            ),
            public_keys.len() == messages.len() && public_keys.len() == signatures.len() ==> (
            r.is_ok() <==> self.spec_batch_verifies(
                alpha@,
                points_view(public_keys@),
                messages_view(messages@),
                signatures_view(signatures@),
            )),
            public_keys.len() == messages.len() && public_keys.len() == signatures.len() ==> (
            r matches Err(e) ==> e == self.spec_batch_error() || e
                == SignatureError::HashAttemptsExhausted),
    ;

    /// Batch verification with a weight drawn from `rng`.
    fn batch_verify(
        &self,
        rng: &mut ChaCha20Rng,
        public_keys: &Vec<Self::PublicKey>,
        messages: &Vec<Vec<u8>>,
        signatures: &Vec<Self::Signature>,
    ) -> (r: Result<(), SignatureError>)
        ensures
            public_keys.len() != messages.len() || public_keys.len() != signatures.len() ==> r
                == Err::<(), SignatureError>(
                SignatureError::BatchVerification(
                    public_keys.len(),
                    messages.len(),
                    signatures.len(),
                ),
            ),
            public_keys.len() != messages.len() || public_keys.len() != signatures.len()
                ==> *final(rng) == *old(rng),
            public_keys.len() == messages.len() && public_keys.len() == signatures.len() ==> (
            r matches Err(e) ==> e == self.spec_batch_error() || e
                == SignatureError::HashAttemptsExhausted),
            public_keys.len() == messages.len() && public_keys.len() == signatures.len()
                ==> exists|alpha: Seq<u8>|
                (r.is_ok() <==> self.spec_batch_verifies(
                    alpha,
                    points_view(public_keys@),
                    messages_view(messages@),
                    signatures_view(signatures@),
                )),
    ;
}

} // verus!
