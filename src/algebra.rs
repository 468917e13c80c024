//! Curve points and scalars of BLS12-381, held as their canonical compressed
//! encodings. The arithmetic is done by the arkworks crates; each operation
//! names what it returns, and the protocol code is stated over those names.
use vstd::arithmetic::power::pow;
use vstd::prelude::*;

use ark_bls12_381::{Bls12_381, Fr, G1Affine, G1Projective, G2Affine, G2Projective};
use ark_ec::msm::VariableBaseMSM;
use ark_ec::{AffineCurve, PairingEngine, ProjectiveCurve};
use ark_ff::{Field, One, PrimeField, UniformRand, Zero};
use ark_poly::{EvaluationDomain, Radix2EvaluationDomain};
use ark_serialize::{CanonicalDeserialize, CanonicalSerialize};
use blake2s_simd::Params;
use rand::{Rng, SeedableRng};
use rand_chacha::ChaCha20Rng;

verus! {

/// Length of an encoded point of G1.
pub const G1_LEN: usize = 48;

/// Length of an encoded point of G2.
pub const G2_LEN: usize = 96;

/// Length of an encoded scalar.
pub const SCALAR_LEN: usize = 32;

/// Largest size of a radix-2 evaluation domain over the scalar field
/// (its two-adicity is 32).
pub const MAX_DOMAIN_SIZE: u64 = 0x1_0000_0000;

/// The caller's random number generator, `rand_chacha::ChaCha20Rng`,
/// carried through unopened.
#[verifier::external_type_specification]
#[verifier::external_body]
pub struct ExChaCha20Rng(ChaCha20Rng);

/// Whether two byte strings are equal.
pub fn bytes_eq(a: &Vec<u8>, b: &Vec<u8>) -> (r: bool)
    ensures
        r == (a@ == b@),
{
    if a.len() != b.len() {
        return false;
    }
    let mut i: usize = 0;
    while i < a.len()
        invariant
            i <= a.len(),
            a.len() == b.len(),
            forall|j: int| 0 <= j < i ==> a@[j] == b@[j],
        decreases a.len() - i,
    {
        if a[i] != b[i] {
            return false;
        }
        i += 1;
    }
    assert(a@ =~= b@);
    true
}

/// The encodings of a sequence of points.
pub open spec fn points_view<P: View<V = Seq<u8>>>(s: Seq<P>) -> Seq<Seq<u8>> {
    s.map_values(|p: P| p@)
}

/// The encodings of a sequence of scalars.
pub open spec fn scalars_view(s: Seq<Scalar>) -> Seq<Seq<u8>> {
    s.map_values(|k: Scalar| k@)
}

/// A prime-order group of the curve, with its points held as canonical
/// encodings.
pub trait CurveGroup: Sized + View<V = Seq<u8>> {
    spec fn spec_sum(a: Seq<u8>, b: Seq<u8>) -> Seq<u8>;

    spec fn spec_scaled(p: Seq<u8>, s: Seq<u8>) -> Seq<u8>;

    spec fn spec_negated(p: Seq<u8>) -> Seq<u8>;

    spec fn spec_identity() -> Seq<u8>;

    spec fn spec_msm(bases: Seq<Seq<u8>>, scalars: Seq<Seq<u8>>) -> Seq<u8>;

    spec fn spec_hash_candidate(b: Seq<u8>) -> Option<Seq<u8>>;

    spec fn spec_canonical(b: Seq<u8>) -> Option<Seq<u8>>;

    spec fn spec_len() -> nat;

    spec fn spec_generator() -> Seq<u8>;

    fn add_point(&self, o: &Self) -> (r: Self)
        ensures
            r@ == Self::spec_sum(self@, o@),
            r@ == Self::spec_sum(o@, self@),
            self@ == Self::spec_identity() ==> r@ == o@,
            o@ == Self::spec_identity() ==> r@ == self@,
    ;

    fn mul_scalar(&self, s: &Scalar) -> (r: Self)
        ensures
            r@ == Self::spec_scaled(self@, s@),
    ;

    fn neg_point(&self) -> (r: Self)
        ensures
            r@ == Self::spec_negated(self@),
    ;

    fn zero() -> (r: Self)
        ensures
            r@ == Self::spec_identity(),
    ;

    fn is_zero(&self) -> (r: bool)
        ensures
            r == (self@ == Self::spec_identity()),
    ;

    fn same(&self, o: &Self) -> (r: bool)
        ensures
            r == (self@ == o@),
    ;

    fn duplicate(&self) -> (r: Self)
        ensures
            r@ == self@,
    ;

    fn multi_scalar_mul(bases: &Vec<Self>, scalars: &Vec<Scalar>) -> (r: Self)
        requires
            bases.len() == scalars.len(),
        ensures
            r@ == Self::spec_msm(points_view(bases@), scalars_view(scalars@)),
    ;

    fn from_hash_bytes(b: &Vec<u8>) -> (r: Option<Self>)
        ensures
            r.is_some() == Self::spec_hash_candidate(b@).is_some(),
            r.is_some() ==> Self::spec_hash_candidate(b@) == Some(r.unwrap()@),
    ;

    fn sample(rng: &mut ChaCha20Rng) -> (r: Self);

    fn prime_generator() -> (r: Self)
        ensures
            r@ == Self::spec_generator(),
    ;

    fn encode(&self) -> (r: Vec<u8>)
        ensures
            r@ == self@,
            Self::spec_canonical(r@) == Some(r@),
            r@.len() == Self::spec_len(),
    ;

    fn decode(b: Vec<u8>) -> (r: Option<Self>)
        ensures
            r.is_some() <==> Self::spec_canonical(b@) == Some(b@),
            r.is_some() ==> r.unwrap()@ == b@,
    ;

    fn encoded_len() -> (r: usize)
        ensures
            r == Self::spec_len(),
            0 < r <= 128,
    ;

}

/// Canonical re-encoding of a G1 point: `Some` of the canonical bytes when
/// `b` decodes to a point of the prime-order subgroup.
pub uninterp spec fn g1_canonical(b: Seq<u8>) -> Option<Seq<u8>>;

/// Encoding of the sum of two G1 points.
pub uninterp spec fn g1_sum(a: Seq<u8>, b: Seq<u8>) -> Seq<u8>;

/// Encoding of a G1 point multiplied by a scalar.
pub uninterp spec fn g1_scaled(p: Seq<u8>, s: Seq<u8>) -> Seq<u8>;

/// Encoding of the negation of a G1 point.
pub uninterp spec fn g1_negated(p: Seq<u8>) -> Seq<u8>;

/// Encoding of the multi-scalar multiplication `sum_i scalars[i] * bases[i]`
/// in G1.
pub uninterp spec fn g1_msm(bases: Seq<Seq<u8>>, scalars: Seq<Seq<u8>>) -> Seq<u8>;

/// The point that random bytes name on the curve, moved into the
/// prime-order subgroup by the cofactor; `None` when the bytes name no point.
pub uninterp spec fn g1_hash_candidate(b: Seq<u8>) -> Option<Seq<u8>>;

/// Encoding of the identity of G1: x = 0 with the infinity flag, bit 6 of
/// the last byte.
pub open spec fn g1_identity() -> Seq<u8> {
    Seq::new(G1_LEN as nat, |i: int| if i == G1_LEN - 1 { 0x40u8 } else { 0u8 })
}

/// Encoding of the prime-subgroup generator of G1 that arkworks fixes: its
/// x in little-endian bytes, with neither flag set (its y is the
/// smaller of the two roots).
pub open spec fn g1_generator() -> Seq<u8> {
    seq![
        0xbbu8, 0xc6, 0x22, 0xdb, 0x0a, 0xf0, 0x3a, 0xfb, 0xef, 0x1a, 0x7a, 0xf9,
        0x3f, 0xe8, 0x55, 0x6c, 0x58, 0xac, 0x1b, 0x17, 0x3f, 0x3a, 0x4e, 0xa1,
        0x05, 0xb9, 0x74, 0x97, 0x4f, 0x8c, 0x68, 0xc3, 0x0f, 0xac, 0xa9, 0x4f,
        0x8c, 0x63, 0x95, 0x26, 0x94, 0xd7, 0x97, 0x31, 0xa7, 0xd3, 0xf1, 0x17,
    ]
}

/// A point of G1, held as the canonical compressed encoding of a point of
/// the prime-order subgroup; the operations below decode it, which cannot
/// fail on such an encoding.
#[derive(Debug, PartialEq, Eq)]
pub struct G1 {
    bytes: Vec<u8>,
}

impl View for G1 {
    type V = Seq<u8>;

    closed spec fn view(&self) -> Seq<u8> {
        self.bytes@
    }
}

impl Clone for G1 {
    fn clone(&self) -> (r: G1)
        ensures
            r@ == self@,
    {
        proof {
            use_type_invariant(self);
        }
        let b = self.bytes.clone();
        assert(b@ =~= self.bytes@);
        G1 { bytes: b }
    }
}

impl G1 {
    #[verifier::type_invariant]
    closed spec fn inv(self) -> bool {
        &&& g1_canonical(self.bytes@) == Some(self.bytes@)
        &&& self.bytes@.len() == G1_LEN
    }


    /// Relies on `CanonicalDeserialize::deserialize` (compressed, with the
    /// subgroup check) and `CanonicalSerialize::serialize` of `G1Affine`.
    #[verifier::external_body]
    fn reencode(b: &Vec<u8>) -> (r: Option<Vec<u8>>)
        ensures
            r.is_some() == g1_canonical(b@).is_some(),
            r.is_some() ==> g1_canonical(b@) == Some(r.unwrap()@),
            r.is_some() ==> g1_canonical(r.unwrap()@) == Some(r.unwrap()@),
            r.is_some() ==> r.unwrap()@.len() == G1_LEN,
    {
        let p = G1Affine::deserialize(&b[..]).ok()?;
        let mut out = Vec::new();
        p.serialize(&mut out).unwrap();
        Some(out)
    }

    /// Decodes a canonical encoding; `None` on anything else.
    pub fn from_bytes(b: Vec<u8>) -> (r: Option<G1>)
        ensures
            r.is_some() <==> g1_canonical(b@) == Some(b@),
            r.is_some() ==> r.unwrap()@ == b@,
    {
        match G1::reencode(&b) {
            Some(c) => {
                if bytes_eq(&c, &b) {
                    Some(G1 { bytes: b })
                } else {
                    None
                }
            },
            None => None,
        }
    }

    /// The canonical encoding.
    pub fn to_bytes(&self) -> (r: Vec<u8>)
        ensures
            r@ == self@,
            g1_canonical(r@) == Some(r@),
            r@.len() == G1_LEN,
    {
        proof {
            use_type_invariant(self);
        }
        let r = self.bytes.clone();
        assert(r@ =~= self.bytes@);
        r
    }

    /// Relies on `AffineCurve::zero` and `CanonicalSerialize::serialize` of
    /// `G1Affine`: the identity encodes as `g1_identity()`.
    #[verifier::external_body]
    pub fn identity() -> (r: G1)
        ensures
            r@ == g1_identity(),
    {
        let mut out = Vec::new();
        G1Affine::zero().serialize(&mut out).unwrap();
        G1 { bytes: out }
    }

    /// Whether this is the identity.
    pub fn is_identity(&self) -> (r: bool)
        ensures
            r == (self@ == g1_identity()),
    {
        let z = G1::identity();
        bytes_eq(&self.bytes, &z.bytes)
    }

    /// Whether two points are equal.
    pub fn equals(&self, o: &G1) -> (r: bool)
        ensures
            r == (self@ == o@),
    {
        bytes_eq(&self.bytes, &o.bytes)
    }

    /// Relies on `Add` of `G1Affine`; point addition is commutative and
    /// the identity is neutral.
    #[verifier::external_body]
    pub fn plus(&self, o: &G1) -> (r: G1)
        ensures
            r@ == g1_sum(self@, o@),
            r@ == g1_sum(o@, self@),
            self@ == g1_identity() ==> r@ == o@,
            o@ == g1_identity() ==> r@ == self@,
    {
        let a = G1Affine::deserialize(&self.bytes[..]).unwrap();
        let b = G1Affine::deserialize(&o.bytes[..]).unwrap();
        let mut out = Vec::new();
        (a + b).serialize(&mut out).unwrap();
        G1 { bytes: out }
    }

    /// Relies on `AffineCurve::mul` of `G1Affine` and `into_affine`.
    #[verifier::external_body]
    pub fn times(&self, s: &Scalar) -> (r: G1)
        ensures
            r@ == g1_scaled(self@, s@),
    {
        let a = G1Affine::deserialize(&self.bytes[..]).unwrap();
        let k = Fr::deserialize(&s.bytes[..]).unwrap();
        let mut out = Vec::new();
        a.mul(k.into_repr()).into_affine().serialize(&mut out).unwrap();
        G1 { bytes: out }
    }

    /// Relies on `Neg` of `G1Affine`.
    #[verifier::external_body]
    pub fn negate(&self) -> (r: G1)
        ensures
            r@ == g1_negated(self@),
    {
        let a = G1Affine::deserialize(&self.bytes[..]).unwrap();
        let mut out = Vec::new();
        (-a).serialize(&mut out).unwrap();
        G1 { bytes: out }
    }

    /// Relies on `VariableBaseMSM::multi_scalar_mul` over `G1Affine`.
    #[verifier::external_body]
    pub fn msm(bases: &Vec<G1>, scalars: &Vec<Scalar>) -> (r: G1)
        requires
            bases.len() == scalars.len(),
        ensures
            r@ == g1_msm(points_view(bases@), scalars_view(scalars@)),
    {
        let b: Vec<G1Affine> = bases.iter().map(|p| G1Affine::deserialize(&p.bytes[..]).unwrap()).collect();
        let s: Vec<_> = scalars.iter().map(|k| Fr::deserialize(&k.bytes[..]).unwrap().into_repr()).collect();
        let mut out = Vec::new();
        VariableBaseMSM::multi_scalar_mul(&b, &s).into_affine().serialize(&mut out).unwrap();
        G1 { bytes: out }
    }

    /// Relies on `AffineCurve::from_random_bytes` and
    /// `AffineCurve::mul_by_cofactor_to_projective` of `G1Affine`.
    #[verifier::external_body]
    pub fn hash_candidate(b: &Vec<u8>) -> (r: Option<G1>)
        ensures
            r.is_some() == g1_hash_candidate(b@).is_some(),
            r.is_some() ==> g1_hash_candidate(b@) == Some(r.unwrap()@),
    {
        let p = G1Affine::from_random_bytes(&b[..])?;
        let mut out = Vec::new();
        p.mul_by_cofactor_to_projective().into_affine().serialize(&mut out).unwrap();
        Some(G1 { bytes: out })
    }

    /// Relies on `UniformRand` of `G1Projective`: a uniformly random point.
    #[verifier::external_body]
    pub fn random(rng: &mut ChaCha20Rng) -> (r: G1) {
        let mut out = Vec::new();
        G1Projective::rand(rng).into_affine().serialize(&mut out).unwrap();
        G1 { bytes: out }
    }

    /// Relies on `AffineCurve::prime_subgroup_generator` of `G1Affine`
    /// (ark-bls12-381's `G1_GENERATOR_X`, `G1_GENERATOR_Y`).
    #[verifier::external_body]
    pub fn generator() -> (r: G1)
        ensures
            r@ == g1_generator(),
    {
        let mut out = Vec::new();
        G1Affine::prime_subgroup_generator().serialize(&mut out).unwrap();
        G1 { bytes: out }
    }
}

impl CurveGroup for G1 {
    open spec fn spec_sum(a: Seq<u8>, b: Seq<u8>) -> Seq<u8> {
        g1_sum(a, b)
    }

    open spec fn spec_scaled(p: Seq<u8>, s: Seq<u8>) -> Seq<u8> {
        g1_scaled(p, s)
    }

    open spec fn spec_negated(p: Seq<u8>) -> Seq<u8> {
        g1_negated(p)
    }

    open spec fn spec_identity() -> Seq<u8> {
        g1_identity()
    }

    open spec fn spec_msm(bases: Seq<Seq<u8>>, scalars: Seq<Seq<u8>>) -> Seq<u8> {
        g1_msm(bases, scalars)
    }

    open spec fn spec_hash_candidate(b: Seq<u8>) -> Option<Seq<u8>> {
        g1_hash_candidate(b)
    }

    open spec fn spec_canonical(b: Seq<u8>) -> Option<Seq<u8>> {
        g1_canonical(b)
    }

    open spec fn spec_len() -> nat {
        G1_LEN as nat
    }

    open spec fn spec_generator() -> Seq<u8> {
        g1_generator()
    }

    fn add_point(&self, o: &Self) -> (r: Self) {
        self.plus(o)
    }

    fn mul_scalar(&self, s: &Scalar) -> (r: Self) {
        self.times(s)
    }

    fn neg_point(&self) -> (r: Self) {
        self.negate()
    }

    fn zero() -> (r: Self) {
        G1::identity()
    }

    fn is_zero(&self) -> (r: bool) {
        self.is_identity()
    }

    fn same(&self, o: &Self) -> (r: bool) {
        self.equals(o)
    }

    fn duplicate(&self) -> (r: Self) {
        self.clone()
    }

    fn multi_scalar_mul(bases: &Vec<Self>, scalars: &Vec<Scalar>) -> (r: Self) {
        G1::msm(bases, scalars)
    }

    fn from_hash_bytes(b: &Vec<u8>) -> (r: Option<Self>) {
        G1::hash_candidate(b)
    }

    fn sample(rng: &mut ChaCha20Rng) -> (r: Self) {
        G1::random(rng)
    }

    fn prime_generator() -> (r: Self) {
        G1::generator()
    }

    fn encode(&self) -> (r: Vec<u8>) {
        self.to_bytes()
    }

    fn decode(b: Vec<u8>) -> (r: Option<Self>) {
        G1::from_bytes(b)
    }

    fn encoded_len() -> (r: usize) {
        G1_LEN
    }

}


/// Canonical re-encoding of a G2 point: `Some` of the canonical bytes when
/// `b` decodes to a point of the prime-order subgroup.
pub uninterp spec fn g2_canonical(b: Seq<u8>) -> Option<Seq<u8>>;

/// Encoding of the sum of two G2 points.
pub uninterp spec fn g2_sum(a: Seq<u8>, b: Seq<u8>) -> Seq<u8>;

/// Encoding of a G2 point multiplied by a scalar.
pub uninterp spec fn g2_scaled(p: Seq<u8>, s: Seq<u8>) -> Seq<u8>;

/// Encoding of the negation of a G2 point.
pub uninterp spec fn g2_negated(p: Seq<u8>) -> Seq<u8>;

/// Encoding of the multi-scalar multiplication `sum_i scalars[i] * bases[i]`
/// in G2.
pub uninterp spec fn g2_msm(bases: Seq<Seq<u8>>, scalars: Seq<Seq<u8>>) -> Seq<u8>;

/// The point that random bytes name on the curve, moved into the
/// prime-order subgroup by the cofactor; `None` when the bytes name no point.
pub uninterp spec fn g2_hash_candidate(b: Seq<u8>) -> Option<Seq<u8>>;

/// Encoding of the identity of G2: x = 0 with the infinity flag, bit 6 of
/// the last byte.
pub open spec fn g2_identity() -> Seq<u8> {
    Seq::new(G2_LEN as nat, |i: int| if i == G2_LEN - 1 { 0x40u8 } else { 0u8 })
}

/// Encoding of the prime-subgroup generator of G2 that arkworks fixes: its
/// x = c0 + c1 u in little-endian bytes, with neither flag set (its y is the
/// smaller of the two roots).
pub open spec fn g2_generator() -> Seq<u8> {
    seq![
        0xb8u8, 0xbd, 0x21, 0xc1, 0xc8, 0x56, 0x80, 0xd4, 0xef, 0xbb, 0x05, 0xa8,
        0x26, 0x03, 0xac, 0x0b, 0x77, 0xd1, 0xe3, 0x7a, 0x64, 0x0b, 0x51, 0xb4,
        0x02, 0x3b, 0x40, 0xfa, 0xd4, 0x7a, 0xe4, 0xc6, 0x51, 0x10, 0xc5, 0x2d,
        0x27, 0x05, 0x08, 0x26, 0x91, 0x0a, 0x8f, 0xf0, 0xb2, 0xa2, 0x4a, 0x02,
        0x7e, 0x2b, 0x04, 0x5d, 0x05, 0x7d, 0xac, 0xe5, 0x57, 0x5d, 0x94, 0x13,
        0x12, 0xf1, 0x4c, 0x33, 0x49, 0x50, 0x7f, 0xdc, 0xbb, 0x61, 0xda, 0xb5,
        0x1a, 0xb6, 0x20, 0x99, 0xd0, 0xd0, 0x6b, 0x59, 0x65, 0x4f, 0x27, 0x88,
        0xa0, 0xd3, 0xac, 0x7d, 0x60, 0x9f, 0x71, 0x52, 0x60, 0x2b, 0xe0, 0x13,
    ]
}

/// A point of G2, held as the canonical compressed encoding of a point of
/// the prime-order subgroup; the operations below decode it, which cannot
/// fail on such an encoding.
#[derive(Debug, PartialEq, Eq)]
pub struct G2 {
    bytes: Vec<u8>,
}

impl View for G2 {
    type V = Seq<u8>;

    closed spec fn view(&self) -> Seq<u8> {
        self.bytes@
    }
}

impl Clone for G2 {
    fn clone(&self) -> (r: G2)
        ensures
            r@ == self@,
    {
        proof {
            use_type_invariant(self);
        }
        let b = self.bytes.clone();
        assert(b@ =~= self.bytes@);
        G2 { bytes: b }
    }
}

impl G2 {
    #[verifier::type_invariant]
    closed spec fn inv(self) -> bool {
        &&& g2_canonical(self.bytes@) == Some(self.bytes@)
        &&& self.bytes@.len() == G2_LEN
    }


    /// Relies on `CanonicalDeserialize::deserialize` (compressed, with the
    /// subgroup check) and `CanonicalSerialize::serialize` of `G2Affine`.
    #[verifier::external_body]
    fn reencode(b: &Vec<u8>) -> (r: Option<Vec<u8>>)
        ensures
            r.is_some() == g2_canonical(b@).is_some(),
            r.is_some() ==> g2_canonical(b@) == Some(r.unwrap()@),
            r.is_some() ==> g2_canonical(r.unwrap()@) == Some(r.unwrap()@),
            r.is_some() ==> r.unwrap()@.len() == G2_LEN,
    {
        let p = G2Affine::deserialize(&b[..]).ok()?;
        let mut out = Vec::new();
        p.serialize(&mut out).unwrap();
        Some(out)
    }

    /// Decodes a canonical encoding; `None` on anything else.
    pub fn from_bytes(b: Vec<u8>) -> (r: Option<G2>)
        ensures
            r.is_some() <==> g2_canonical(b@) == Some(b@),
            r.is_some() ==> r.unwrap()@ == b@,
    {
        match G2::reencode(&b) {
            Some(c) => {
                if bytes_eq(&c, &b) {
                    Some(G2 { bytes: b })
                } else {
                    None
                }
            },
            None => None,
        }
    }

    /// The canonical encoding.
    pub fn to_bytes(&self) -> (r: Vec<u8>)
        ensures
            r@ == self@,
            g2_canonical(r@) == Some(r@),
            r@.len() == G2_LEN,
    {
        proof {
            use_type_invariant(self);
        }
        let r = self.bytes.clone();
        assert(r@ =~= self.bytes@);
        r
    }

    /// Relies on `AffineCurve::zero` and `CanonicalSerialize::serialize` of
    /// `G2Affine`: the identity encodes as `g2_identity()`.
    #[verifier::external_body]
    pub fn identity() -> (r: G2)
        ensures
            r@ == g2_identity(),
    {
        let mut out = Vec::new();
        G2Affine::zero().serialize(&mut out).unwrap();
        G2 { bytes: out }
    }

    /// Whether this is the identity.
    pub fn is_identity(&self) -> (r: bool)
        ensures
            r == (self@ == g2_identity()),
    {
        let z = G2::identity();
        bytes_eq(&self.bytes, &z.bytes)
    }

    /// Whether two points are equal.
    pub fn equals(&self, o: &G2) -> (r: bool)
        ensures
            r == (self@ == o@),
    {
        bytes_eq(&self.bytes, &o.bytes)
    }

    /// Relies on `Add` of `G2Affine`; point addition is commutative and
    /// the identity is neutral.
    #[verifier::external_body]
    pub fn plus(&self, o: &G2) -> (r: G2)
        ensures
            r@ == g2_sum(self@, o@),
            r@ == g2_sum(o@, self@),
            self@ == g2_identity() ==> r@ == o@,
            o@ == g2_identity() ==> r@ == self@,
    {
        let a = G2Affine::deserialize(&self.bytes[..]).unwrap();
        let b = G2Affine::deserialize(&o.bytes[..]).unwrap();
        let mut out = Vec::new();
        (a + b).serialize(&mut out).unwrap();
        G2 { bytes: out }
    }

    /// Relies on `AffineCurve::mul` of `G2Affine` and `into_affine`.
    #[verifier::external_body]
    pub fn times(&self, s: &Scalar) -> (r: G2)
        ensures
            r@ == g2_scaled(self@, s@),
    {
        let a = G2Affine::deserialize(&self.bytes[..]).unwrap();
        let k = Fr::deserialize(&s.bytes[..]).unwrap();
        let mut out = Vec::new();
        a.mul(k.into_repr()).into_affine().serialize(&mut out).unwrap();
        G2 { bytes: out }
    }

    /// Relies on `Neg` of `G2Affine`.
    #[verifier::external_body]
    pub fn negate(&self) -> (r: G2)
        ensures
            r@ == g2_negated(self@),
    {
        let a = G2Affine::deserialize(&self.bytes[..]).unwrap();
        let mut out = Vec::new();
        (-a).serialize(&mut out).unwrap();
        G2 { bytes: out }
    }

    /// Relies on `VariableBaseMSM::multi_scalar_mul` over `G2Affine`.
    #[verifier::external_body]
    pub fn msm(bases: &Vec<G2>, scalars: &Vec<Scalar>) -> (r: G2)
        requires
            bases.len() == scalars.len(),
        ensures
            r@ == g2_msm(points_view(bases@), scalars_view(scalars@)),
    {
        let b: Vec<G2Affine> = bases.iter().map(|p| G2Affine::deserialize(&p.bytes[..]).unwrap()).collect();
        let s: Vec<_> = scalars.iter().map(|k| Fr::deserialize(&k.bytes[..]).unwrap().into_repr()).collect();
        let mut out = Vec::new();
        VariableBaseMSM::multi_scalar_mul(&b, &s).into_affine().serialize(&mut out).unwrap();
        G2 { bytes: out }
    }

    /// Relies on `AffineCurve::from_random_bytes` and
    /// `AffineCurve::mul_by_cofactor_to_projective` of `G2Affine`.
    #[verifier::external_body]
    pub fn hash_candidate(b: &Vec<u8>) -> (r: Option<G2>)
        ensures
            r.is_some() == g2_hash_candidate(b@).is_some(),
            r.is_some() ==> g2_hash_candidate(b@) == Some(r.unwrap()@),
    {
        let p = G2Affine::from_random_bytes(&b[..])?;
        let mut out = Vec::new();
        p.mul_by_cofactor_to_projective().into_affine().serialize(&mut out).unwrap();
        Some(G2 { bytes: out })
    }

    /// Relies on `UniformRand` of `G2Projective`: a uniformly random point.
    #[verifier::external_body]
    pub fn random(rng: &mut ChaCha20Rng) -> (r: G2) {
        let mut out = Vec::new();
        G2Projective::rand(rng).into_affine().serialize(&mut out).unwrap();
        G2 { bytes: out }
    }

    /// Relies on `AffineCurve::prime_subgroup_generator` of `G2Affine`
    /// (ark-bls12-381's `G2_GENERATOR_X`, `G2_GENERATOR_Y`).
    #[verifier::external_body]
    pub fn generator() -> (r: G2)
        ensures
            r@ == g2_generator(),
    {
        let mut out = Vec::new();
        G2Affine::prime_subgroup_generator().serialize(&mut out).unwrap();
        G2 { bytes: out }
    }
}

impl CurveGroup for G2 {
    open spec fn spec_sum(a: Seq<u8>, b: Seq<u8>) -> Seq<u8> {
        g2_sum(a, b)
    }

    open spec fn spec_scaled(p: Seq<u8>, s: Seq<u8>) -> Seq<u8> {
        g2_scaled(p, s)
    }

    open spec fn spec_negated(p: Seq<u8>) -> Seq<u8> {
        g2_negated(p)
    }

    open spec fn spec_identity() -> Seq<u8> {
        g2_identity()
    }

    open spec fn spec_msm(bases: Seq<Seq<u8>>, scalars: Seq<Seq<u8>>) -> Seq<u8> {
        g2_msm(bases, scalars)
    }

    open spec fn spec_hash_candidate(b: Seq<u8>) -> Option<Seq<u8>> {
        g2_hash_candidate(b)
    }

    open spec fn spec_canonical(b: Seq<u8>) -> Option<Seq<u8>> {
        g2_canonical(b)
    }

    open spec fn spec_len() -> nat {
        G2_LEN as nat
    }

    open spec fn spec_generator() -> Seq<u8> {
        g2_generator()
    }

    fn add_point(&self, o: &Self) -> (r: Self) {
        self.plus(o)
    }

    fn mul_scalar(&self, s: &Scalar) -> (r: Self) {
        self.times(s)
    }

    fn neg_point(&self) -> (r: Self) {
        self.negate()
    }

    fn zero() -> (r: Self) {
        G2::identity()
    }

    fn is_zero(&self) -> (r: bool) {
        self.is_identity()
    }

    fn same(&self, o: &Self) -> (r: bool) {
        self.equals(o)
    }

    fn duplicate(&self) -> (r: Self) {
        self.clone()
    }

    fn multi_scalar_mul(bases: &Vec<Self>, scalars: &Vec<Scalar>) -> (r: Self) {
        G2::msm(bases, scalars)
    }

    fn from_hash_bytes(b: &Vec<u8>) -> (r: Option<Self>) {
        G2::hash_candidate(b)
    }

    fn sample(rng: &mut ChaCha20Rng) -> (r: Self) {
        G2::random(rng)
    }

    fn prime_generator() -> (r: Self) {
        G2::generator()
    }

    fn encode(&self) -> (r: Vec<u8>) {
        self.to_bytes()
    }

    fn decode(b: Vec<u8>) -> (r: Option<Self>) {
        G2::from_bytes(b)
    }

    fn encoded_len() -> (r: usize) {
        G2_LEN
    }

}

/// The order of the prime-order groups, which is the modulus of the scalar
/// field, from its four little-endian 64-bit limbs.
pub open spec fn fr_modulus() -> nat {
    (0xffffffff00000001u64 as int + 0x53bda402fffe5bfeu64 as int * pow(2, 64)
        + 0x3339d80809a1d805u64 as int * pow(2, 128) + 0x73eda753299d7d48u64 as int * pow(
        2,
        192,
    )) as nat
}

/// The integer that little-endian bytes encode.
pub open spec fn le_value(b: Seq<u8>) -> nat
    decreases b.len(),
{
    if b.len() == 0 {
        0
    } else {
        b[0] as nat + 256 * le_value(b.skip(1))
    }
}

/// The 32 little-endian bytes of `x`.
pub open spec fn le_bytes32(x: nat) -> Seq<u8> {
    Seq::new(32, |i: int| ((x / (pow(256, i as nat) as nat)) % 256) as u8)
}

/// The encoding of the scalar whose value is `x` modulo the field's modulus.
pub open spec fn fr_of_value(x: int) -> Seq<u8> {
    le_bytes32((x % (fr_modulus() as int)) as nat)
}

/// Canonical re-encoding of a scalar: `Some` of the canonical bytes when `b`
/// decodes to an element of the scalar field.
pub uninterp spec fn fr_canonical(b: Seq<u8>) -> Option<Seq<u8>>;

/// Encoding of the product of two scalars.
pub uninterp spec fn fr_product(a: Seq<u8>, b: Seq<u8>) -> Seq<u8>;

/// Encoding of the difference `a - b` of two scalars.
pub uninterp spec fn fr_difference(a: Seq<u8>, b: Seq<u8>) -> Seq<u8>;

/// Encoding of the negation of a scalar.
pub uninterp spec fn fr_negated(a: Seq<u8>) -> Seq<u8>;

/// Encoding of the multiplicative inverse of a scalar; `None` for zero.
pub uninterp spec fn fr_inverse(a: Seq<u8>) -> Option<Seq<u8>>;

/// The scalar that random bytes name, or `None` when they name none.
pub uninterp spec fn fr_from_random(b: Seq<u8>) -> Option<Seq<u8>>;

/// Encoding of the integer `w` as a scalar: its little-endian bytes, padded
/// with zeros.
pub open spec fn fr_of_u64(w: u64) -> Seq<u8> {
    Seq::new(SCALAR_LEN as nat, |i: int| if i < 8 { (w >> ((8 * i) as u64)) as u8 } else { 0u8 })
}

/// An element of the scalar field, held as its canonical little-endian
/// encoding; the operations below decode it, which cannot fail on such an
/// encoding.
#[derive(Debug, PartialEq, Eq)]
pub struct Scalar {
    bytes: Vec<u8>,
}

impl View for Scalar {
    type V = Seq<u8>;

    closed spec fn view(&self) -> Seq<u8> {
        self.bytes@
    }
}

impl Clone for Scalar {
    fn clone(&self) -> (r: Scalar)
        ensures
            r@ == self@,
    {
        proof {
            use_type_invariant(self);
        }
        let b = self.bytes.clone();
        assert(b@ =~= self.bytes@);
        Scalar { bytes: b }
    }
}

impl Scalar {
    #[verifier::type_invariant]
    closed spec fn inv(self) -> bool {
        &&& fr_canonical(self.bytes@) == Some(self.bytes@)
        &&& self.bytes@.len() == SCALAR_LEN
    }


    /// Relies on `CanonicalDeserialize::deserialize` and
    /// `CanonicalSerialize::serialize` of `Fr`.
    #[verifier::external_body]
    fn reencode(b: &Vec<u8>) -> (r: Option<Vec<u8>>)
        ensures
            r.is_some() == fr_canonical(b@).is_some(),
            r.is_some() ==> fr_canonical(b@) == Some(r.unwrap()@),
            r.is_some() ==> fr_canonical(r.unwrap()@) == Some(r.unwrap()@),
            r.is_some() ==> r.unwrap()@.len() == SCALAR_LEN,
    {
        let k = Fr::deserialize(&b[..]).ok()?;
        let mut out = Vec::new();
        k.serialize(&mut out).unwrap();
        Some(out)
    }

    /// Decodes a canonical encoding; `None` on anything else.
    pub fn from_bytes(b: Vec<u8>) -> (r: Option<Scalar>)
        ensures
            r.is_some() <==> fr_canonical(b@) == Some(b@),
            r.is_some() ==> r.unwrap()@ == b@,
    {
        match Scalar::reencode(&b) {
            Some(c) => {
                if bytes_eq(&c, &b) {
                    Some(Scalar { bytes: b })
                } else {
                    None
                }
            },
            None => None,
        }
    }

    /// The canonical encoding.
    pub fn to_bytes(&self) -> (r: Vec<u8>)
        ensures
            r@ == self@,
            fr_canonical(r@) == Some(r@),
            r@.len() == SCALAR_LEN,
    {
        proof {
            use_type_invariant(self);
        }
        let r = self.bytes.clone();
        assert(r@ =~= self.bytes@);
        r
    }

    /// Relies on `From<u64>` and `CanonicalSerialize::serialize` of `Fr`:
    /// a small integer encodes as its little-endian bytes.
    #[verifier::external_body]
    pub fn from_u64(w: u64) -> (r: Scalar)
        ensures
            r@ == fr_of_u64(w),
    {
        let mut out = Vec::new();
        Fr::from(w).serialize(&mut out).unwrap();
        Scalar { bytes: out }
    }

    /// The scalar one.
    pub fn one() -> (r: Scalar)
        ensures
            r@ == fr_of_u64(1),
    {
        Scalar::from_u64(1)
    }

    /// Relies on `Mul` of `Fr`: the product modulo r, encoded little-endian.
    #[verifier::external_body]
    pub fn times(&self, o: &Scalar) -> (r: Scalar)
        ensures
            r@ == fr_product(self@, o@),
            r@ == fr_of_value((le_value(self@) * le_value(o@)) as int),
    {
        let a = Fr::deserialize(&self.bytes[..]).unwrap();
        let b = Fr::deserialize(&o.bytes[..]).unwrap();
        let mut out = Vec::new();
        (a * b).serialize(&mut out).unwrap();
        Scalar { bytes: out }
    }

    /// Relies on `Sub` of `Fr`: the difference modulo r, encoded little-endian.
    #[verifier::external_body]
    pub fn minus(&self, o: &Scalar) -> (r: Scalar)
        ensures
            r@ == fr_difference(self@, o@),
            r@ == fr_of_value(le_value(self@) as int - le_value(o@) as int),
    {
        let a = Fr::deserialize(&self.bytes[..]).unwrap();
        let b = Fr::deserialize(&o.bytes[..]).unwrap();
        let mut out = Vec::new();
        (a - b).serialize(&mut out).unwrap();
        Scalar { bytes: out }
    }

    /// Relies on `Neg` of `Fr`: the negation modulo r, encoded little-endian.
    #[verifier::external_body]
    pub fn negate(&self) -> (r: Scalar)
        ensures
            r@ == fr_negated(self@),
            r@ == fr_of_value(-(le_value(self@) as int)),
    {
        let a = Fr::deserialize(&self.bytes[..]).unwrap();
        let mut out = Vec::new();
        (-a).serialize(&mut out).unwrap();
        Scalar { bytes: out }
    }

    /// Relies on `Field::inverse` of `Fr`, which is `None` for zero and the
    /// inverse modulo r otherwise.
    #[verifier::external_body]
    pub fn inverse(&self) -> (r: Option<Scalar>)
        ensures
            r.is_some() == fr_inverse(self@).is_some(),
            r.is_some() ==> fr_inverse(self@) == Some(r.unwrap()@),
            r.is_some() <==> self@ != fr_of_u64(0),
            r.is_some() ==> fr_of_value((le_value(r.unwrap()@) * le_value(self@)) as int)
                == fr_of_u64(1),
    {
        let a = Fr::deserialize(&self.bytes[..]).unwrap();
        let mut out = Vec::new();
        a.inverse()?.serialize(&mut out).unwrap();
        Some(Scalar { bytes: out })
    }

    /// Relies on `Field::from_random_bytes` of `Fr`.
    #[verifier::external_body]
    pub fn from_random_bytes(b: &Vec<u8>) -> (r: Option<Scalar>)
        ensures
            r.is_some() == fr_from_random(b@).is_some(),
            r.is_some() ==> fr_from_random(b@) == Some(r.unwrap()@),
    {
        let k = Fr::from_random_bytes(&b[..])?;
        let mut out = Vec::new();
        k.serialize(&mut out).unwrap();
        Some(Scalar { bytes: out })
    }

    /// Relies on `UniformRand` of `Fr`: a uniformly random scalar.
    #[verifier::external_body]
    pub fn random(rng: &mut ChaCha20Rng) -> (r: Scalar) {
        let mut out = Vec::new();
        Fr::rand(rng).serialize(&mut out).unwrap();
        Scalar { bytes: out }
    }
}

/// Whether the product of the pairings `e(p, q)` over all pairs is the
/// identity of the target group.
pub uninterp spec fn pairing_product_is_one(pairs: Seq<(Seq<u8>, Seq<u8>)>) -> bool;

/// The encodings of a sequence of pairs of points.
pub open spec fn pairs_view(pairs: Seq<(G1, G2)>) -> Seq<(Seq<u8>, Seq<u8>)> {
    pairs.map_values(|p: (G1, G2)| (p.0@, p.1@))
}

/// Relies on `PairingEngine::product_of_pairings` of `Bls12_381` and
/// `One::is_one` of its target field.
#[verifier::external_body]
pub fn pairing_check(pairs: &Vec<(G1, G2)>) -> (r: bool)
    ensures
        r == pairing_product_is_one(pairs_view(pairs@)),
{
    let prepared: Vec<(<Bls12_381 as PairingEngine>::G1Prepared, <Bls12_381 as PairingEngine>::G2Prepared)> = pairs
        .iter()
        .map(|(a, b)| (G1Affine::deserialize(&a.bytes[..]).unwrap().into(), G2Affine::deserialize(&b.bytes[..]).unwrap().into()))
        .collect();
    Bls12_381::product_of_pairings(prepared.iter()).is_one()
}

/// Encoding of the product of the pairings `e(p, q)` over all pairs, an
/// element of the target group.
pub uninterp spec fn pairing_product_value(pairs: Seq<(Seq<u8>, Seq<u8>)>) -> Seq<u8>;

/// Relies on `PairingEngine::product_of_pairings` of `Bls12_381` and
/// `CanonicalSerialize::serialize` of its target field.
#[verifier::external_body]
pub fn pairing_product(pairs: &Vec<(G1, G2)>) -> (r: Vec<u8>)
    ensures
        r@ == pairing_product_value(pairs_view(pairs@)),
{
    let prepared: Vec<(<Bls12_381 as PairingEngine>::G1Prepared, <Bls12_381 as PairingEngine>::G2Prepared)> = pairs
        .iter()
        .map(|(a, b)| (G1Affine::deserialize(&a.bytes[..]).unwrap().into(), G2Affine::deserialize(&b.bytes[..]).unwrap().into()))
        .collect();
    let mut out = Vec::new();
    Bls12_381::product_of_pairings(prepared.iter()).serialize(&mut out).unwrap();
    out
}

/// Whether `n` is a power of two.
pub open spec fn is_pow2(n: nat) -> bool
    decreases n,
{
    if n == 1 {
        true
    } else if n < 2 || n % 2 != 0 {
        false
    } else {
        is_pow2(n / 2)
    }
}

/// Whether a radix-2 evaluation domain of exactly `n` points exists.
pub open spec fn domain_exists(n: nat) -> bool {
    is_pow2(n) && n <= MAX_DOMAIN_SIZE
}

/// Relies on `Radix2EvaluationDomain::new` and `size` over `Fr`: for a
/// power of two, the domain has exactly that size, and it exists unless the
/// size passes the two-adicity of the field.
#[verifier::external_body]
pub fn radix2_domain_size(n: usize) -> (r: Option<usize>)
    requires
        is_pow2(n as nat),
    ensures
        r == (if n as nat <= MAX_DOMAIN_SIZE { Some(n) } else { None::<usize> }),
{
    Radix2EvaluationDomain::<Fr>::new(n).map(|d| d.size())
}

/// Evaluations of the polynomial with the given coefficients over the
/// radix-2 domain of `size` points, in the domain's order.
pub uninterp spec fn fft_evaluations(size: nat, coeffs: Seq<Seq<u8>>) -> Seq<Seq<u8>>;

/// Relies on `EvaluationDomain::fft` of `Radix2EvaluationDomain<Fr>`, which
/// copies its input and returns one evaluation per point of the domain.
#[verifier::external_body]
pub fn fft(size: usize, coeffs: &Vec<Scalar>) -> (r: Vec<Scalar>)
    requires
        domain_exists(size as nat),
    ensures
        scalars_view(r@) == fft_evaluations(size as nat, scalars_view(coeffs@)),
        r@.len() == size,
{
    let d = Radix2EvaluationDomain::<Fr>::new(size).unwrap();
    let c: Vec<Fr> = coeffs.iter().map(|k| Fr::deserialize(&k.bytes[..]).unwrap()).collect();
    d.fft(&c).iter().map(|e| { let mut out = Vec::new(); e.serialize(&mut out).unwrap(); Scalar { bytes: out } }).collect()
}

/// The values at `tau` of the Lagrange basis polynomials of the radix-2
/// domain of `size` points.
pub uninterp spec fn lagrange_coefficients_at(size: nat, tau: Seq<u8>) -> Seq<Seq<u8>>;

/// Relies on `EvaluationDomain::evaluate_all_lagrange_coefficients` of
/// `Radix2EvaluationDomain<Fr>`: one value per point of the domain.
#[verifier::external_body]
pub fn lagrange_coefficients(size: usize, tau: &Scalar) -> (r: Vec<Scalar>)
    requires
        domain_exists(size as nat),
    ensures
        scalars_view(r@) == lagrange_coefficients_at(size as nat, tau@),
        r@.len() == size,
{
    let d = Radix2EvaluationDomain::<Fr>::new(size).unwrap();
    let t = Fr::deserialize(&tau.bytes[..]).unwrap();
    d.evaluate_all_lagrange_coefficients(t).iter().map(|e| { let mut out = Vec::new(); e.serialize(&mut out).unwrap(); Scalar { bytes: out } }).collect()
}

/// The 32-byte BLAKE2s digest of `message` under a personalization string.
pub uninterp spec fn blake2s_personal(personal: Seq<u8>, message: Seq<u8>) -> Seq<u8>;

/// Relies on `blake2s_simd::Params` with a hash length of 32 and the given
/// personalization, which may hold at most 8 bytes.
#[verifier::external_body]
pub fn blake2s_32(personal: &[u8], message: &[u8]) -> (r: Vec<u8>)
    requires
        personal@.len() <= 8,
    ensures
        r@ == blake2s_personal(personal@, message@),
        r@.len() == 32,
{
    Params::new().hash_length(32).personal(personal).to_state().update(message).finalize().as_bytes().to_vec()
}

/// The byte that `gen::<u8>()` draws from a ChaCha20 stream seeded with
/// `seed` when the stream stands at the given 32-bit word.
pub uninterp spec fn chacha_byte(seed: Seq<u8>, word: u64) -> u8;

/// Relies on `ChaCha20Rng::from_seed`, `set_word_pos` and `Rng::gen::<u8>`,
/// which draws one 32-bit word and keeps its low byte.
#[verifier::external_body]
pub fn chacha_stream_byte(seed: &Vec<u8>, word: u64) -> (r: u8)
    requires
        seed@.len() == 32,
    ensures
        r == chacha_byte(seed@, word),
{
    let mut s = [0u8; 32];
    s.copy_from_slice(&seed[..]);
    let mut rng = ChaCha20Rng::from_seed(s);
    rng.set_word_pos(word as u128);
    rng.gen()
}

} // verus!
