//! Deterministic hashing of messages into a group or into the scalar field.
//!
//! A message and a personalization string give a 32-byte BLAKE2s seed for a
//! ChaCha20 stream; the stream is read in blocks of one encoding length, and
//! the first block that names a usable element is the result.
use vstd::prelude::*;

use crate::algebra::{
    blake2s_32, blake2s_personal, chacha_byte, chacha_stream_byte, fr_from_random, CurveGroup,
    Scalar, SCALAR_LEN,
};
use crate::errors::SignatureError;

verus! {

/// Bound on the blocks drawn before hashing gives up; each block succeeds
/// with probability about one half.
pub const MAX_HASH_ATTEMPTS: u64 = 0x1_0000_0000;

/// The `k`-th block of `len` bytes of the stream seeded with `seed`; each
/// byte takes one 32-bit word of the stream.
pub open spec fn attempt_bytes_spec(seed: Seq<u8>, k: nat, len: nat) -> Seq<u8> {
    Seq::new(len, |i: int| chacha_byte(seed, (k * len + i) as u64))
}

/// The point that block `k` gives, when it names a point other than the
/// identity.
pub open spec fn group_attempt<C: CurveGroup>(seed: Seq<u8>, k: nat) -> Option<Seq<u8>> {
    match C::spec_hash_candidate(attempt_bytes_spec(seed, k, C::spec_len())) {
        Some(p) => if p == C::spec_identity() {
            None
        } else {
            Some(p)
        },
        None => None,
    }
}

/// Block `k` is the first that gives a point.
pub open spec fn first_group_attempt<C: CurveGroup>(seed: Seq<u8>, k: nat) -> bool {
    &&& k < MAX_HASH_ATTEMPTS
    &&& group_attempt::<C>(seed, k).is_some()
    &&& forall|j: nat| j < k ==> (#[trigger] group_attempt::<C>(seed, j)).is_none()
}

/// The point that hashing `message` under `personalization` gives.
pub open spec fn spec_hash_to_group<C: CurveGroup>(
    personalization: Seq<u8>,
    message: Seq<u8>,
) -> Option<Seq<u8>> {
    let seed = blake2s_personal(personalization, message);
    if exists|k: nat| first_group_attempt::<C>(seed, k) {
        group_attempt::<C>(seed, choose|k: nat| first_group_attempt::<C>(seed, k))
    } else {
        None
    }
}

/// The scalar that block `k` gives.
pub open spec fn field_attempt(seed: Seq<u8>, k: nat) -> Option<Seq<u8>> {
    fr_from_random(attempt_bytes_spec(seed, k, SCALAR_LEN as nat))
}

/// Block `k` is the first that gives a scalar.
pub open spec fn first_field_attempt(seed: Seq<u8>, k: nat) -> bool {
    &&& k < MAX_HASH_ATTEMPTS
    &&& field_attempt(seed, k).is_some()
    &&& forall|j: nat| j < k ==> (#[trigger] field_attempt(seed, j)).is_none()
}

/// The scalar that hashing `message` under `personalization` gives.
pub open spec fn spec_hash_to_field(personalization: Seq<u8>, message: Seq<u8>) -> Option<
    Seq<u8>,
> {
    let seed = blake2s_personal(personalization, message);
    if exists|k: nat| first_field_attempt(seed, k) {
        field_attempt(seed, choose|k: nat| first_field_attempt(seed, k))
    } else {
        None
    }
}

/// Draws block `k` of `len` bytes from the stream seeded with `seed`.
fn attempt_bytes(seed: &Vec<u8>, k: u64, len: usize) -> (r: Vec<u8>)
    requires
        seed@.len() == 32,
        k < MAX_HASH_ATTEMPTS,
        len <= 128,
    ensures
        r@ == attempt_bytes_spec(seed@, k as nat, len as nat),
{
    assert(k * len <= MAX_HASH_ATTEMPTS * 128) by (nonlinear_arith)
        requires
            k < MAX_HASH_ATTEMPTS,
            len <= 128,
    ;
    let base: u64 = k * (len as u64);
    let mut r: Vec<u8> = Vec::new();
    let mut i: usize = 0;
    while i < len
        invariant
            seed@.len() == 32,
            i <= len,
            len <= 128,
            base == k * len,
            base <= MAX_HASH_ATTEMPTS * 128,
            r@.len() == i,
            forall|j: int| 0 <= j < i ==> r@[j] == chacha_byte(seed@, (k * len + j) as u64),
        decreases len - i,
    {
        let b = chacha_stream_byte(seed, base + i as u64);
        r.push(b);
        i += 1;
    }
    assert(r@ =~= attempt_bytes_spec(seed@, k as nat, len as nat));
    r
}

/// Hashes `message` into the group `C`.
pub fn hash_to_group<C: CurveGroup>(personalization: &Vec<u8>, message: &[u8]) -> (r: Result<
    C,
    SignatureError,
>)
    requires
        personalization@.len() <= 8,
    ensures
        match r {
            Ok(p) => spec_hash_to_group::<C>(personalization@, message@) == Some(p@),
            Err(e) => e == SignatureError::HashAttemptsExhausted && spec_hash_to_group::<C>(
                personalization@,
                message@,
            ).is_none(),
        },
{
    let seed = blake2s_32(personalization.as_slice(), message);
    let ghost s = seed@;
    let len = C::encoded_len();
    let mut k: u64 = 0;
    while k < MAX_HASH_ATTEMPTS
        invariant
            seed@ == s,
            s == blake2s_personal(personalization@, message@),
            s.len() == 32,
            len == C::spec_len(),
            0 < len <= 128,
            k <= MAX_HASH_ATTEMPTS,
            forall|j: nat| j < k ==> (#[trigger] group_attempt::<C>(s, j)).is_none(),
        decreases MAX_HASH_ATTEMPTS - k,
    {
        let bytes = attempt_bytes(&seed, k, len);
        match C::from_hash_bytes(&bytes) {
            Some(p) => {
                if !p.is_zero() {
                    proof {
                        assert(first_group_attempt::<C>(s, k as nat));
                        let c = choose|c: nat| first_group_attempt::<C>(s, c);
                        if c < k {
                            assert(group_attempt::<C>(s, c).is_none());
                        } else if c > k {
                            assert(group_attempt::<C>(s, k as nat).is_none());
                        }
                    }
                    return Ok(p);
                }
            },
            None => {},
        }
        k += 1;
    }
    proof {
        assert forall|c: nat| !first_group_attempt::<C>(s, c) by {
            if c < MAX_HASH_ATTEMPTS {
                assert(group_attempt::<C>(s, c).is_none());
            }
        }
    }
    Err(SignatureError::HashAttemptsExhausted)
}

/// Hashes `message` into the scalar field.
pub fn hash_to_field(personalization: &Vec<u8>, message: &[u8]) -> (r: Result<
    Scalar,
    SignatureError,
>)
    requires
        personalization@.len() <= 8,
    ensures
        match r {
            Ok(k) => spec_hash_to_field(personalization@, message@) == Some(k@),
            Err(e) => e == SignatureError::HashAttemptsExhausted && spec_hash_to_field(
                personalization@,
                message@,
            ).is_none(),
        },
{
    let seed = blake2s_32(personalization.as_slice(), message);
    let ghost s = seed@;
    let mut k: u64 = 0;
    while k < MAX_HASH_ATTEMPTS
        invariant
            seed@ == s,
            s == blake2s_personal(personalization@, message@),
            s.len() == 32,
            k <= MAX_HASH_ATTEMPTS,
            forall|j: nat| j < k ==> (#[trigger] field_attempt(s, j)).is_none(),
        decreases MAX_HASH_ATTEMPTS - k,
    {
        let bytes = attempt_bytes(&seed, k, SCALAR_LEN);
        match Scalar::from_random_bytes(&bytes) {
            Some(x) => {
                proof {
                    assert(first_field_attempt(s, k as nat));
                    let c = choose|c: nat| first_field_attempt(s, c);
                    if c < k {
                        assert(field_attempt(s, c).is_none());
                    } else if c > k {
                        assert(field_attempt(s, k as nat).is_none());
                    }
                }
                return Ok(x);
            },
            None => {},
        }
        k += 1;
    }
    proof {
        assert forall|c: nat| !first_field_attempt(s, c) by {
            if c < MAX_HASH_ATTEMPTS {
                assert(field_attempt(s, c).is_none());
            }
        }
    }
    Err(SignatureError::HashAttemptsExhausted)
}

} // verus!
