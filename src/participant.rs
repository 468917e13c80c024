//! Participants of the protocol and the public parameters they share.
use vstd::prelude::*;

use crate::algebra::{G1, G2, Scalar};
use crate::errors::DKGError;
use rand_chacha::ChaCha20Rng;

verus! {

/// Where a roster entry stands in the round.
#[derive(Debug, Clone, Copy, PartialEq, Eq)]
pub enum ParticipantState {
    Dealer,
    DealerShared,
    Initial,
    Verified,
}

/// A member of the committee: its index, which is also its point of the
/// evaluation domain, and its signature public key.
pub struct Participant {
    pub id: usize,
    pub public_key_sig: G2,
    pub state: ParticipantState,
}

impl Clone for Participant {
    fn clone(&self) -> (r: Participant)
        ensures
            r.id == self.id,
            r.public_key_sig@ == self.public_key_sig@,
            r.state == self.state,
    {
        Participant { id: self.id, public_key_sig: self.public_key_sig.clone(), state: self.state }
    }
}

/// The common reference string: a generator of each group.
pub struct SRS {
    pub g_g1: G1,
    pub h_g2: G2,
}

impl SRS {
    /// Random points of the two groups.
    pub fn setup(rng: &mut ChaCha20Rng) -> (r: Result<SRS, DKGError>)
        ensures
            r.is_ok(),
    {
        let g_g1 = G1::random(rng);
        let h_g2 = G2::random(rng);
        Ok(SRS { g_g1, h_g2 })
    }
}

impl Clone for SRS {
    fn clone(&self) -> (r: SRS)
        ensures
            r.g_g1@ == self.g_g1@,
            r.h_g2@ == self.h_g2@,
    {
        SRS { g_g1: self.g_g1.clone(), h_g2: self.h_g2.clone() }
    }
}

/// The public parameters of a round: the reference string, the second
/// generator `u_1` of G2 for the same-ratio check, and the degree of the
/// shared polynomial.
pub struct Config {
    pub srs: SRS,
    pub u_1: G2,
    pub degree: usize,
}

impl Clone for Config {
    fn clone(&self) -> (r: Config)
        ensures
            r.srs.g_g1@ == self.srs.g_g1@,
            r.srs.h_g2@ == self.srs.h_g2@,
            r.u_1@ == self.u_1@,
            r.degree == self.degree,
    {
        Config { srs: self.srs.clone(), u_1: self.u_1.clone(), degree: self.degree }
    }
}

/// The dealing side of a node: its signing secret, the sum of the seats it
/// has decrypted, and its own roster entry.
pub struct Dealer {
    pub private_key_sig: Scalar,
    pub accumulated_secret: G2,
    pub participant: Participant,
}

impl Clone for Dealer {
    fn clone(&self) -> (r: Dealer)
        ensures
            r.private_key_sig@ == self.private_key_sig@,
            r.accumulated_secret@ == self.accumulated_secret@,
            r.participant.id == self.participant.id,
            r.participant.public_key_sig@ == self.participant.public_key_sig@,
            r.participant.state == self.participant.state,
    {
        Dealer {
            private_key_sig: self.private_key_sig.clone(),
            accumulated_secret: self.accumulated_secret.clone(),
            participant: self.participant.clone(),
        }
    }
}

} // verus!
