//! Verification of the proofs that come with messages from appchains.
use vstd::prelude::*;

verus! {

/// Verifier of the proofs of messages from an appchain.
pub struct AppchainProver;

impl AppchainProver {
    /// Verifies the proof of encoded messages; every proof is accepted for now.
    pub fn verify(
        &self,
        encoded_messages: Vec<u8>,
        header_partial: Vec<u8>,
        leaf_proof: Vec<u8>,
        mmr_root: Vec<u8>,
    ) -> (r: bool)
        ensures
            r,
    {
        true
    }
}

} // verus!
