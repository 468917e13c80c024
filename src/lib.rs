//! Publicly verifiable distributed key generation over BLS12-381, with the
//! BLS and Schnorr signature schemes it uses for proofs of knowledge and for
//! participant signatures.
//!
//! - `algebra`: points, scalars, pairings and the evaluation domain, held as
//!   canonical encodings and computed by the arkworks crates.
//! - `hash`: deterministic hashing into a group or the scalar field.
//! - `scheme`, `bls`, `schnorr`: the signature-scheme capabilities and the
//!   two schemes.
//! - `participant`, `pvss`, `transcript`: the roster and parameters, public
//!   shares, and the transcript that folds dealers' contributions.
//! - `aggregator`, `node`: the verifying role and the dealing role.
//! - `codec`: the wire encoding, with its round trip.
//! - `algebraic`: a pairing-based signature with proven public keys.
pub mod algebra;
pub mod errors;
pub mod hash;
pub mod scheme;
pub mod bls;
pub mod schnorr;
pub mod participant;
pub mod pvss;
pub mod transcript;
pub mod aggregator;
pub mod node;
pub mod codec;
pub mod algebraic;
