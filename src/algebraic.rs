//! A pairing-based signature with proven public keys: a key comes with a
//! proof that it is well formed, signatures and proven keys add up, and a
//! verified signature derives a value of the target group.
use vstd::prelude::*;

use crate::algebra::{
    fr_negated, g1_generator, g1_negated, g2_generator, g1_scaled, g1_sum, g2_negated, g2_scaled, g2_sum, pairing_check,
    pairing_product, pairing_product_is_one, pairing_product_value, pairs_view, CurveGroup,
    Scalar, G1, G2,
};
use crate::bls::spec_point_sum;
use crate::errors::{SignatureError, VerifyProofEquation};
use crate::hash::{hash_to_group, spec_hash_to_group};
use rand_chacha::ChaCha20Rng;

verus! {

/// Personalization of the message hash, "ALGEBSIG".
pub open spec fn algebraic_personalization() -> Seq<u8> {
    seq![0x41u8, 0x4c, 0x47, 0x45, 0x42, 0x53, 0x49, 0x47]
}

fn personalization() -> (r: Vec<u8>)
    ensures
        r@ == algebraic_personalization(),
{
    let r = vec![0x41u8, 0x4c, 0x47, 0x45, 0x42, 0x53, 0x49, 0x47];
    assert(r@ =~= algebraic_personalization());
    r
}

/// The generators of the scheme.
#[derive(Debug, PartialEq, Eq)]
pub struct SRS {
    pub g_1_g2: G2,
    pub h_g1: G1,
    pub g_2_g2: G2,
    pub g_3_g2: G2,
    pub g_4_g2: G2,
}

impl View for SRS {
    type V = (Seq<u8>, Seq<u8>, Seq<u8>, Seq<u8>, Seq<u8>);

    open spec fn view(&self) -> Self::V {
        (self.g_1_g2@, self.h_g1@, self.g_2_g2@, self.g_3_g2@, self.g_4_g2@)
    }
}

impl Clone for SRS {
    fn clone(&self) -> (r: SRS)
        ensures
            r@ == self@,
    {
        SRS {
            g_1_g2: self.g_1_g2.clone(),
            h_g1: self.h_g1.clone(),
            g_2_g2: self.g_2_g2.clone(),
            g_3_g2: self.g_3_g2.clone(),
            g_4_g2: self.g_4_g2.clone(),
        }
    }
}

impl SRS {
    /// The prime-subgroup generators, and three random points of G2.
    pub fn setup(rng: &mut ChaCha20Rng) -> (r: Result<SRS, SignatureError>)
        ensures
            r matches Ok(s) && s.g_1_g2@ == g2_generator() && s.h_g1@ == g1_generator(),
    {
        Ok(
            SRS {
                g_1_g2: G2::generator(),
                h_g1: G1::generator(),
                g_2_g2: G2::random(rng),
                g_3_g2: G2::random(rng),
                g_4_g2: G2::random(rng),
            },
        )
    }

    /// Whether two reference strings are equal.
    pub fn same(&self, o: &SRS) -> (r: bool)
        ensures
            r == (self@ == o@),
    {
        self.g_1_g2.equals(&o.g_1_g2) && self.h_g1.equals(&o.h_g1) && self.g_2_g2.equals(&o.g_2_g2)
            && self.g_3_g2.equals(&o.g_3_g2) && self.g_4_g2.equals(&o.g_4_g2)
    }
}

/// The secret `a * g_1`.
#[derive(Debug, Clone, PartialEq, Eq)]
pub struct PrivateKey {
    pub sk: G2,
}

/// The public key `a * h`.
#[derive(Debug, PartialEq, Eq)]
pub struct PublicKey {
    pub srs: SRS,
    pub pk: G1,
}

impl Clone for PublicKey {
    fn clone(&self) -> (r: PublicKey)
        ensures
            r.srs@ == self.srs@,
            r.pk@ == self.pk@,
    {
        PublicKey { srs: self.srs.clone(), pk: self.pk.clone() }
    }
}

/// The proof that a public key is well formed.
#[derive(Debug, PartialEq, Eq)]
pub struct KeyProof {
    pub pi_1_g2: G2,
    pub pi_2_g2: G2,
    pub pi_1_g1: G1,
    pub pi_3_g1: G1,
}

impl View for KeyProof {
    type V = (Seq<u8>, Seq<u8>, Seq<u8>, Seq<u8>);

    open spec fn view(&self) -> Self::V {
        (self.pi_1_g2@, self.pi_2_g2@, self.pi_1_g1@, self.pi_3_g1@)
    }
}

impl Clone for KeyProof {
    fn clone(&self) -> (r: KeyProof)
        ensures
            r@ == self@,
    {
        KeyProof {
            pi_1_g2: self.pi_1_g2.clone(),
            pi_2_g2: self.pi_2_g2.clone(),
            pi_1_g1: self.pi_1_g1.clone(),
            pi_3_g1: self.pi_3_g1.clone(),
        }
    }
}

/// A public key with its proof.
#[derive(Debug, PartialEq, Eq)]
pub struct ProvenPublicKey {
    pub public_key: PublicKey,
    pub key_proof: KeyProof,
}

impl Clone for ProvenPublicKey {
    fn clone(&self) -> (r: ProvenPublicKey)
        ensures
            r.public_key.srs@ == self.public_key.srs@,
            r.public_key.pk@ == self.public_key.pk@,
            r.key_proof@ == self.key_proof@,
    {
        ProvenPublicKey { public_key: self.public_key.clone(), key_proof: self.key_proof.clone() }
    }
}

/// A key pair with the randomness `alpha` and `beta` of its proofs.
#[derive(Debug, Clone, PartialEq, Eq)]
pub struct Keypair {
    pub srs: SRS,
    pub alpha: Scalar,
    pub beta: Scalar,
    pub private: PrivateKey,
    pub public: PublicKey,
}

/// The proof part of a signature.
#[derive(Debug, Clone, PartialEq, Eq)]
pub struct SignatureProof {
    pub pi_2_g1: G1,
    pub pi_4_g1: G1,
}

/// A signature.
#[derive(Debug, Clone, PartialEq, Eq)]
pub struct Signature {
    pub signature_proof: SignatureProof,
}

/// The first key equation: `e(h, pi_1) e(pi_1', g_1) e(pi_3', g_2) == 1`.
pub open spec fn eq1_pairs(k: &ProvenPublicKey) -> Seq<(Seq<u8>, Seq<u8>)> {
    let s = &k.public_key.srs;
    seq![
        (s.h_g1@, k.key_proof.pi_1_g2@),
        (k.key_proof.pi_1_g1@, s.g_1_g2@),
        (k.key_proof.pi_3_g1@, s.g_2_g2@),
    ]
}

/// The second key equation:
/// `e(h, pi_2) e(pi_1', g_3) e(pi_3', g_4) e(pk, -g_1) == 1`.
pub open spec fn eq3_pairs(k: &ProvenPublicKey) -> Seq<(Seq<u8>, Seq<u8>)> {
    let s = &k.public_key.srs;
    seq![
        (s.h_g1@, k.key_proof.pi_2_g2@),
        (k.key_proof.pi_1_g1@, s.g_3_g2@),
        (k.key_proof.pi_3_g1@, s.g_4_g2@),
        (k.public_key.pk@, g2_negated(s.g_1_g2@)),
    ]
}

/// The two key equations combined with the weight `r`.
pub open spec fn key_pairs_weighted(k: &ProvenPublicKey, r: Seq<u8>) -> Seq<(Seq<u8>, Seq<u8>)> {
    let s = &k.public_key.srs;
    seq![
        (g1_scaled(s.h_g1@, r), k.key_proof.pi_1_g2@),
        (g1_sum(g1_negated(k.public_key.pk@), g1_scaled(k.key_proof.pi_1_g1@, r)), s.g_1_g2@),
        (g1_scaled(k.key_proof.pi_3_g1@, r), s.g_2_g2@),
        (s.h_g1@, k.key_proof.pi_2_g2@),
        (k.key_proof.pi_1_g1@, s.g_3_g2@),
        (k.key_proof.pi_3_g1@, s.g_4_g2@),
    ]
}

/// The signature equation for the hashed message `m`:
/// `e(m, pi_1) e(pi_2, g_1) e(pi_4, g_2) == 1`.
pub open spec fn eq2_pairs(sig: &Signature, k: &ProvenPublicKey, m: Seq<u8>) -> Seq<
    (Seq<u8>, Seq<u8>),
> {
    let s = &k.public_key.srs;
    seq![
        (m, k.key_proof.pi_1_g2@),
        (sig.signature_proof.pi_2_g1@, s.g_1_g2@),
        (sig.signature_proof.pi_4_g1@, s.g_2_g2@),
    ]
}

/// The pairs whose product a verified signature derives.
pub open spec fn derive_pairs(sig: &Signature, k: &ProvenPublicKey, m: Seq<u8>) -> Seq<
    (Seq<u8>, Seq<u8>),
> {
    let s = &k.public_key.srs;
    seq![
        (m, k.key_proof.pi_2_g2@),
        (sig.signature_proof.pi_2_g1@, s.g_3_g2@),
        (sig.signature_proof.pi_4_g1@, s.g_4_g2@),
    ]
}

/// The key and signature equations combined with the weights `r` and `r2`.
pub open spec fn all_pairs_weighted(
    sig: &Signature,
    k: &ProvenPublicKey,
    m: Seq<u8>,
    r: Seq<u8>,
    r2: Seq<u8>,
) -> Seq<(Seq<u8>, Seq<u8>)> {
    let s = &k.public_key.srs;
    let p = &sig.signature_proof;
    seq![
        (g1_sum(g1_scaled(m, r2), g1_scaled(s.h_g1@, r)), k.key_proof.pi_1_g2@),
        (
            g1_sum(
                g1_sum(g1_negated(k.public_key.pk@), g1_scaled(p.pi_2_g1@, r2)),
                g1_scaled(k.key_proof.pi_1_g1@, r),
            ),
            s.g_1_g2@,
        ),
        (g1_sum(g1_scaled(p.pi_4_g1@, r2), g1_scaled(k.key_proof.pi_3_g1@, r)), s.g_2_g2@),
        (s.h_g1@, k.key_proof.pi_2_g2@),
        (k.key_proof.pi_1_g1@, s.g_3_g2@),
        (k.key_proof.pi_3_g1@, s.g_4_g2@),
    ]
}

/// The hash of a message into G1 under this scheme's personalization.
pub open spec fn message_point(message: Seq<u8>) -> Option<Seq<u8>> {
    spec_hash_to_group::<G1>(algebraic_personalization(), message)
}

impl Keypair {
    /// A key pair for a random secret, with random proof randomness.
    pub fn generate_keypair(rng: &mut ChaCha20Rng, srs: SRS) -> (r: Result<Keypair, SignatureError>)
        ensures
            r matches Ok(kp) && {
                &&& kp.srs@ == srs@
                &&& kp.public.srs@ == srs@
                &&& exists|a: Seq<u8>|
                    kp.private.sk@ == g2_scaled(srs.g_1_g2@, a) && kp.public.pk@ == g1_scaled(
                        srs.h_g1@,
                        a,
                    )
            },
    {
        let a = Scalar::random(rng);
        let sk = srs.g_1_g2.times(&a);
        let pk = srs.h_g1.times(&a);
        let alpha = Scalar::random(rng);
        let beta = Scalar::random(rng);
        let public = PublicKey { srs: srs.clone(), pk };
        Ok(Keypair { alpha, beta, srs, private: PrivateKey { sk }, public })
    }

    /// The same keys with fresh proof randomness.
    pub fn refresh_randomness(&self, rng: &mut ChaCha20Rng) -> (r: Result<Keypair, SignatureError>)
        ensures
            r matches Ok(kp) && kp.srs@ == self.srs@ && kp.private.sk@ == self.private.sk@
                && kp.public.srs@ == self.public.srs@ && kp.public.pk@ == self.public.pk@,
    {
        Ok(
            Keypair {
                alpha: Scalar::random(rng),
                beta: Scalar::random(rng),
                srs: self.srs.clone(),
                private: PrivateKey { sk: self.private.sk.clone() },
                public: self.public.clone(),
            },
        )
    }

    /// Signs `message`: its hash multiplied by `alpha` and by `beta`.
    pub fn sign(&self, message: &[u8]) -> (r: Result<Signature, SignatureError>)
        ensures
            match message_point(message@) {
                Some(m) => r matches Ok(s) && s.signature_proof.pi_2_g1@ == g1_scaled(m, self.alpha@)
                    && s.signature_proof.pi_4_g1@ == g1_scaled(m, self.beta@),
                None => r == Err::<Signature, SignatureError>(SignatureError::HashAttemptsExhausted),
            },
    {
        let pers = personalization();
        let m = match hash_to_group::<G1>(&pers, message) {
            Ok(m) => m,
            Err(e) => return Err(e),
        };
        Ok(
            Signature {
                signature_proof: SignatureProof {
                    pi_2_g1: m.times(&self.alpha),
                    pi_4_g1: m.times(&self.beta),
                },
            },
        )
    }

    /// The public key with its proof.
    pub fn prove_key(&self) -> (r: Result<ProvenPublicKey, SignatureError>)
        ensures
            r matches Ok(k) && {
                let s = &self.srs;
                let na = fr_negated(self.alpha@);
                let nb = fr_negated(self.beta@);
                &&& k.public_key.srs@ == self.public.srs@
                &&& k.public_key.pk@ == self.public.pk@
                &&& k.key_proof.pi_1_g2@ == g2_sum(g2_scaled(s.g_1_g2@, na), g2_scaled(s.g_2_g2@, nb))
                &&& k.key_proof.pi_2_g2@ == g2_sum(
                    g2_sum(g2_scaled(s.g_3_g2@, na), g2_scaled(s.g_4_g2@, nb)),
                    self.private.sk@,
                )
                &&& k.key_proof.pi_1_g1@ == g1_scaled(s.h_g1@, self.alpha@)
                &&& k.key_proof.pi_3_g1@ == g1_scaled(s.h_g1@, self.beta@)
            },
    {
        let na = self.alpha.negate();
        let nb = self.beta.negate();
        let pi_1_g2 = self.srs.g_1_g2.times(&na).plus(&self.srs.g_2_g2.times(&nb));
        let pi_2_g2 = self.srs.g_3_g2.times(&na).plus(&self.srs.g_4_g2.times(&nb)).plus(
            &self.private.sk,
        );
        let pi_1_g1 = self.srs.h_g1.times(&self.alpha);
        let pi_3_g1 = self.srs.h_g1.times(&self.beta);
        Ok(
            ProvenPublicKey {
                public_key: self.public.clone(),
                key_proof: KeyProof { pi_1_g2, pi_2_g2, pi_1_g1, pi_3_g1 },
            },
        )
    }
}

/// The component sums of the first `n` proven keys.
pub open spec fn keys_summed(keys: Seq<ProvenPublicKey>, n: nat) -> (
    Seq<u8>,
    (Seq<u8>, Seq<u8>, Seq<u8>, Seq<u8>),
) {
    (
        spec_point_sum::<G1>(keys.map_values(|k: ProvenPublicKey| k.public_key.pk@), n),
        (
            spec_point_sum::<G2>(keys.map_values(|k: ProvenPublicKey| k.key_proof.pi_1_g2@), n),
            spec_point_sum::<G2>(keys.map_values(|k: ProvenPublicKey| k.key_proof.pi_2_g2@), n),
            spec_point_sum::<G1>(keys.map_values(|k: ProvenPublicKey| k.key_proof.pi_1_g1@), n),
            spec_point_sum::<G1>(keys.map_values(|k: ProvenPublicKey| k.key_proof.pi_3_g1@), n),
        ),
    )
}

impl ProvenPublicKey {
    /// The sum of proven keys under the reference string `srs`; every key
    /// must have been made under it.
    pub fn aggregate(public_keys: &Vec<ProvenPublicKey>, srs: SRS) -> (r: Result<
        ProvenPublicKey,
        SignatureError,
    >)
        ensures
            (forall|i: int|
                0 <= i < public_keys.len() ==> (#[trigger] public_keys@[i]).public_key.srs@
                    == srs@) ==> (r matches Ok(k) && k.public_key.srs@ == srs@ && (
            k.public_key.pk@, k.key_proof@) == keys_summed(public_keys@, public_keys.len() as nat)),
            !(forall|i: int|
                0 <= i < public_keys.len() ==> (#[trigger] public_keys@[i]).public_key.srs@
                    == srs@) ==> r == Err::<ProvenPublicKey, SignatureError>(
                SignatureError::SRSDifferent,
            ),
    {
        let mut pk = G1::identity();
        let mut pi_1_g2 = G2::identity();
        let mut pi_2_g2 = G2::identity();
        let mut pi_1_g1 = G1::identity();
        let mut pi_3_g1 = G1::identity();
        let mut i: usize = 0;
        while i < public_keys.len()
            invariant
                i <= public_keys.len(),
                forall|j: int| 0 <= j < i ==> (#[trigger] public_keys@[j]).public_key.srs@ == srs@,
                (pk@, (pi_1_g2@, pi_2_g2@, pi_1_g1@, pi_3_g1@)) == keys_summed(
                    public_keys@,
                    i as nat,
                ),
            decreases public_keys.len() - i,
        {
            let k = &public_keys[i];
            if !k.public_key.srs.same(&srs) {
                return Err(SignatureError::SRSDifferent);
            }
            pk = pk.plus(&k.public_key.pk);
            pi_1_g2 = pi_1_g2.plus(&k.key_proof.pi_1_g2);
            pi_2_g2 = pi_2_g2.plus(&k.key_proof.pi_2_g2);
            pi_1_g1 = pi_1_g1.plus(&k.key_proof.pi_1_g1);
            pi_3_g1 = pi_3_g1.plus(&k.key_proof.pi_3_g1);
            i += 1;
        }
        Ok(
            ProvenPublicKey {
                public_key: PublicKey { srs, pk },
                key_proof: KeyProof { pi_1_g2, pi_2_g2, pi_1_g1, pi_3_g1 },
            },
        )
    }

    /// Checks the two key equations.
    pub fn verify(&self) -> (r: Result<(), SignatureError>)
        ensures
            r.is_ok() <==> pairing_product_is_one(eq1_pairs(self)) && pairing_product_is_one(
                eq3_pairs(self),
            ),
            !pairing_product_is_one(eq1_pairs(self)) ==> r == Err::<(), SignatureError>(
                SignatureError::AlgebraicVerifyProof(VerifyProofEquation::Eq1),
            ),
            pairing_product_is_one(eq1_pairs(self)) && !pairing_product_is_one(eq3_pairs(self))
                ==> r == Err::<(), SignatureError>(
                SignatureError::AlgebraicVerifyProof(VerifyProofEquation::Eq3),
            ),
    {
        let s = &self.public_key.srs;
        let eq1 = vec![
            (s.h_g1.clone(), self.key_proof.pi_1_g2.clone()),
            (self.key_proof.pi_1_g1.clone(), s.g_1_g2.clone()),
            (self.key_proof.pi_3_g1.clone(), s.g_2_g2.clone()),
        ];
        assert(pairs_view(eq1@) =~= eq1_pairs(self));
        if !pairing_check(&eq1) {
            return Err(SignatureError::AlgebraicVerifyProof(VerifyProofEquation::Eq1));
        }
        let eq3 = vec![
            (s.h_g1.clone(), self.key_proof.pi_2_g2.clone()),
            (self.key_proof.pi_1_g1.clone(), s.g_3_g2.clone()),
            (self.key_proof.pi_3_g1.clone(), s.g_4_g2.clone()),
            (self.public_key.pk.clone(), s.g_1_g2.negate()),
        ];
        assert(pairs_view(eq3@) =~= eq3_pairs(self));
        if !pairing_check(&eq3) {
            return Err(SignatureError::AlgebraicVerifyProof(VerifyProofEquation::Eq3));
        }
        Ok(())
    }

    /// Checks both key equations at once, combined with the weight `r`.
    pub fn verify_probabilistically_with(&self, r: &Scalar) -> (res: Result<(), SignatureError>)
        ensures
            res.is_ok() <==> pairing_product_is_one(key_pairs_weighted(self, r@)),
            res.is_err() ==> res == Err::<(), SignatureError>(
                SignatureError::AlgebraicVerifyProof(VerifyProofEquation::EqProbabilistic),
            ),
    {
        let s = &self.public_key.srs;
        let eq = vec![
            (s.h_g1.times(r), self.key_proof.pi_1_g2.clone()),
            (self.public_key.pk.negate().plus(&self.key_proof.pi_1_g1.times(r)), s.g_1_g2.clone()),
            (self.key_proof.pi_3_g1.times(r), s.g_2_g2.clone()),
            (s.h_g1.clone(), self.key_proof.pi_2_g2.clone()),
            (self.key_proof.pi_1_g1.clone(), s.g_3_g2.clone()),
            (self.key_proof.pi_3_g1.clone(), s.g_4_g2.clone()),
        ];
        assert(pairs_view(eq@) =~= key_pairs_weighted(self, r@));
        if !pairing_check(&eq) {
            return Err(SignatureError::AlgebraicVerifyProof(VerifyProofEquation::EqProbabilistic));
        }
        Ok(())
    }

    /// Checks both key equations at once, with a weight drawn from `rng`.
    pub fn verify_probabilistically(&self, rng: &mut ChaCha20Rng) -> (res: Result<
        (),
        SignatureError,
    >)
        ensures
            res.is_ok() ==> exists|r: Seq<u8>| pairing_product_is_one(key_pairs_weighted(self, r)),
            res.is_err() ==> res == Err::<(), SignatureError>(
                SignatureError::AlgebraicVerifyProof(VerifyProofEquation::EqProbabilistic),
            ),
    {
        let r = Scalar::random(rng);
        let res = self.verify_probabilistically_with(&r);
        if res.is_ok() {
            assert(pairing_product_is_one(key_pairs_weighted(self, r@)));
        }
        res
    }
}

/// The component sums of the first `n` signatures.
pub open spec fn signatures_summed(sigs: Seq<Signature>, n: nat) -> (Seq<u8>, Seq<u8>) {
    (
        spec_point_sum::<G1>(sigs.map_values(|s: Signature| s.signature_proof.pi_2_g1@), n),
        spec_point_sum::<G1>(sigs.map_values(|s: Signature| s.signature_proof.pi_4_g1@), n),
    )
}

impl Default for Signature {
    fn default() -> (r: Signature)
        ensures
            r.signature_proof.pi_2_g1@ == G1::spec_identity(),
            r.signature_proof.pi_4_g1@ == G1::spec_identity(),
    {
        Signature {
            signature_proof: SignatureProof { pi_2_g1: G1::identity(), pi_4_g1: G1::identity() },
        }
    }
}

impl Signature {
    /// Checks the signature equation for the hashed message.
    fn verify_proof(&self, public_key: &ProvenPublicKey, m: &G1) -> (r: Result<(), SignatureError>)
        ensures
            r.is_ok() <==> pairing_product_is_one(eq2_pairs(self, public_key, m@)),
            r.is_err() ==> r == Err::<(), SignatureError>(
                SignatureError::AlgebraicVerifyProof(VerifyProofEquation::Eq2),
            ),
    {
        let s = &public_key.public_key.srs;
        let eq2 = vec![
            (m.clone(), public_key.key_proof.pi_1_g2.clone()),
            (self.signature_proof.pi_2_g1.clone(), s.g_1_g2.clone()),
            (self.signature_proof.pi_4_g1.clone(), s.g_2_g2.clone()),
        ];
        assert(pairs_view(eq2@) =~= eq2_pairs(self, public_key, m@));
        if !pairing_check(&eq2) {
            return Err(SignatureError::AlgebraicVerifyProof(VerifyProofEquation::Eq2));
        }
        Ok(())
    }

    /// Checks the signature on `message` against a proven key.
    pub fn verify(&self, public_key: ProvenPublicKey, message: &[u8]) -> (r: Result<
        (),
        SignatureError,
    >)
        ensures
            match message_point(message@) {
                Some(m) => (r.is_ok() <==> pairing_product_is_one(eq2_pairs(self, &public_key, m)))
                    && (r.is_err() ==> r == Err::<(), SignatureError>(
                    SignatureError::AlgebraicVerifyProof(VerifyProofEquation::Eq2),
                )),
                None => r == Err::<(), SignatureError>(SignatureError::HashAttemptsExhausted),
            },
    {
        let pers = personalization();
        let m = match hash_to_group::<G1>(&pers, message) {
            Ok(m) => m,
            Err(e) => return Err(e),
        };
        self.verify_proof(&public_key, &m)
    }

    /// The value of the target group that the signature derives for
    /// `message` under a proven key.
    pub fn derive(&self, public_key: ProvenPublicKey, message: &[u8]) -> (r: Result<
        Vec<u8>,
        SignatureError,
    >)
        ensures
            match message_point(message@) {
                Some(m) => r matches Ok(v) && v@ == pairing_product_value(
                    derive_pairs(self, &public_key, m),
                ),
                None => r == Err::<Vec<u8>, SignatureError>(SignatureError::HashAttemptsExhausted),
            },
    {
        let pers = personalization();
        let m = match hash_to_group::<G1>(&pers, message) {
            Ok(m) => m,
            Err(e) => return Err(e),
        };
        let s = &public_key.public_key.srs;
        let pairs = vec![
            (m.clone(), public_key.key_proof.pi_2_g2.clone()),
            (self.signature_proof.pi_2_g1.clone(), s.g_3_g2.clone()),
            (self.signature_proof.pi_4_g1.clone(), s.g_4_g2.clone()),
        ];
        assert(pairs_view(pairs@) =~= derive_pairs(self, &public_key, m@));
        Ok(pairing_product(&pairs))
    }

    /// Checks the signature, then derives its value.
    pub fn verify_and_derive(&self, public_key: ProvenPublicKey, message: &[u8]) -> (r: Result<
        Vec<u8>,
        SignatureError,
    >)
        ensures
            match message_point(message@) {
                Some(m) => {
                    &&& r.is_ok() <==> pairing_product_is_one(eq2_pairs(self, &public_key, m))
                    &&& r matches Ok(v) ==> v@ == pairing_product_value(
                        derive_pairs(self, &public_key, m),
                    )
                    &&& r.is_err() ==> r == Err::<Vec<u8>, SignatureError>(
                        SignatureError::AlgebraicVerifyProof(VerifyProofEquation::Eq2),
                    )
                },
                None => r == Err::<Vec<u8>, SignatureError>(SignatureError::HashAttemptsExhausted),
            },
    {
        let pers = personalization();
        let m = match hash_to_group::<G1>(&pers, message) {
            Ok(m) => m,
            Err(e) => return Err(e),
        };
        match self.verify_proof(&public_key, &m) {
            Ok(()) => {},
            Err(e) => return Err(e),
        }
        self.derive(public_key, message)
    }

    /// Checks the key equations and the signature equation at once,
    /// combined with the weights `r` and `r2`.
    pub fn verify_all_probabilistically_with(
        &self,
        r: &Scalar,
        r2: &Scalar,
        public_key: ProvenPublicKey,
        message: &[u8],
    ) -> (res: Result<(), SignatureError>)
        ensures
            match message_point(message@) {
                Some(m) => (res.is_ok() <==> pairing_product_is_one(
                    all_pairs_weighted(self, &public_key, m, r@, r2@),
                )) && (res.is_err() ==> res == Err::<(), SignatureError>(
                    SignatureError::AlgebraicVerifyProof(VerifyProofEquation::EqAllProbabilistic),
                )),
                None => res == Err::<(), SignatureError>(SignatureError::HashAttemptsExhausted),
            },
    {
        let pers = personalization();
        let m = match hash_to_group::<G1>(&pers, message) {
            Ok(m) => m,
            Err(e) => return Err(e),
        };
        let s = &public_key.public_key.srs;
        let p = &self.signature_proof;
        let k = &public_key.key_proof;
        let eq = vec![
            (m.times(r2).plus(&s.h_g1.times(r)), k.pi_1_g2.clone()),
            (
                public_key.public_key.pk.negate().plus(&p.pi_2_g1.times(r2)).plus(
                    &k.pi_1_g1.times(r),
                ),
                s.g_1_g2.clone(),
            ),
            (p.pi_4_g1.times(r2).plus(&k.pi_3_g1.times(r)), s.g_2_g2.clone()),
            (s.h_g1.clone(), k.pi_2_g2.clone()),
            (k.pi_1_g1.clone(), s.g_3_g2.clone()),
            (k.pi_3_g1.clone(), s.g_4_g2.clone()),
        ];
        assert(pairs_view(eq@) =~= all_pairs_weighted(self, &public_key, m@, r@, r2@));
        if !pairing_check(&eq) {
            return Err(
                SignatureError::AlgebraicVerifyProof(VerifyProofEquation::EqAllProbabilistic),
            );
        }
        Ok(())
    }

    /// As `verify_all_probabilistically_with`, with weights drawn from
    /// `rng`.
    pub fn verify_all_probabilistically(
        &self,
        rng: &mut ChaCha20Rng,
        public_key: ProvenPublicKey,
        message: &[u8],
    ) -> (res: Result<(), SignatureError>)
        ensures
            message_point(message@).is_none() ==> res == Err::<(), SignatureError>(
                SignatureError::HashAttemptsExhausted,
            ),
            message_point(message@).is_some() && res.is_err() ==> res == Err::<(), SignatureError>(
                SignatureError::AlgebraicVerifyProof(VerifyProofEquation::EqAllProbabilistic),
            ),
            res.is_ok() ==> exists|r: Seq<u8>, r2: Seq<u8>|
                pairing_product_is_one(
                    all_pairs_weighted(self, &public_key, message_point(message@).unwrap(), r, r2),
                ),
    {
        let r = Scalar::random(rng);
        let r2 = Scalar::random(rng);
        let ghost k = public_key;
        let res = self.verify_all_probabilistically_with(&r, &r2, public_key, message);
        proof {
            if res.is_ok() {
                assert(pairing_product_is_one(
                    all_pairs_weighted(self, &k, message_point(message@).unwrap(), r@, r2@),
                ));
            }
        }
        res
    }

    /// The sum of signatures.
    pub fn aggregate(signatures: &Vec<Signature>) -> (r: Result<Signature, SignatureError>)
        ensures
            r matches Ok(s) && (s.signature_proof.pi_2_g1@, s.signature_proof.pi_4_g1@)
                == signatures_summed(signatures@, signatures.len() as nat),
    {
        let mut acc = Signature::default();
        let mut i: usize = 0;
        while i < signatures.len()
            invariant
                i <= signatures.len(),
                (acc.signature_proof.pi_2_g1@, acc.signature_proof.pi_4_g1@) == signatures_summed(
                    signatures@,
                    i as nat,
                ),
            decreases signatures.len() - i,
        {
            let s = &signatures[i];
            acc = Signature {
                signature_proof: SignatureProof {
                    pi_2_g1: acc.signature_proof.pi_2_g1.plus(&s.signature_proof.pi_2_g1),
                    pi_4_g1: acc.signature_proof.pi_4_g1.plus(&s.signature_proof.pi_4_g1),
                },
            };
            i += 1;
        }
        Ok(acc)
    }
}

} // verus!
