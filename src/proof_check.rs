use vstd::prelude::*;
use crate::error::AgentBlinkPayError;

verus! {

/// A checker of compliance proofs over the public inputs: amount, category
/// and the policy commitment. It accepts or rejects; nothing else.
pub trait ProofVerifier: Sized {
    /// Whether this verifier, in its current state, accepts the proof.
    spec fn accepts(&self, proof: Seq<u8>, amount: u64, category: u8, policy_hash: Seq<u8>) -> bool;

    /// The verifier's state after one check of the proof.
    spec fn after_check(&self, proof: Seq<u8>, amount: u64, category: u8, policy_hash: Seq<u8>) -> Self;

    fn verify(&mut self, proof: &Vec<u8>, amount: u64, category: u8, policy_hash: &[u8; 32]) -> (r:
        bool)
        ensures
            r == old(self).accepts(proof@, amount, category, policy_hash@),
            *final(self) == old(self).after_check(proof@, amount, category, policy_hash@),
    ;
}

/// Checks a payment-policy proof. This verifier is a placeholder: it accepts
/// any non-empty proof and gives no economic guarantee.
pub fn verify_payment_policy_proof(
    proof: &Vec<u8>,
    amount: u64,
    category: u8,
    policy_hash: &[u8; 32],
) -> (r: Result<(), AgentBlinkPayError>)
    ensures
        r is Ok <==> proof@.len() > 0,
        r is Err ==> r == Err::<(), AgentBlinkPayError>(AgentBlinkPayError::InvalidProof),
{
    if proof.len() == 0 {
        Err(AgentBlinkPayError::InvalidProof)
    } else {
        Ok(())
    }
}

/// The bundled placeholder verifier, backed by `verify_payment_policy_proof`.
#[derive(Clone, Copy, Debug)]
pub struct StubVerifier;

impl ProofVerifier for StubVerifier {
    open spec fn accepts(&self, proof: Seq<u8>, amount: u64, category: u8, policy_hash: Seq<u8>) -> bool {
        proof.len() > 0
    }

    open spec fn after_check(&self, proof: Seq<u8>, amount: u64, category: u8, policy_hash: Seq<u8>) -> StubVerifier {
        *self
    }

    fn verify(&mut self, proof: &Vec<u8>, amount: u64, category: u8, policy_hash: &[u8; 32]) -> (r:
        bool) {
        verify_payment_policy_proof(proof, amount, category, policy_hash).is_ok()
    }
}

/// A deterministic verifier for tests: it gives the same verdict on every
/// call and counts its calls (saturating).
#[derive(Clone, Copy, Debug)]
pub struct MockVerifier {
    pub accept: bool,
    pub calls: u64,
}

impl MockVerifier {
    pub fn new(accept: bool) -> (r: MockVerifier)
        ensures
            r.accept == accept,
            r.calls == 0,
    {
        MockVerifier { accept, calls: 0 }
    }
}

impl ProofVerifier for MockVerifier {
    open spec fn accepts(&self, proof: Seq<u8>, amount: u64, category: u8, policy_hash: Seq<u8>) -> bool {
        self.accept
    }

    open spec fn after_check(&self, proof: Seq<u8>, amount: u64, category: u8, policy_hash: Seq<u8>) -> MockVerifier {
        MockVerifier {
            accept: self.accept,
            calls: if self.calls == u64::MAX { self.calls } else { (self.calls + 1) as u64 },
        }
    }

    fn verify(&mut self, proof: &Vec<u8>, amount: u64, category: u8, policy_hash: &[u8; 32]) -> (r:
        bool) {
        self.calls = self.calls.saturating_add(1);
        self.accept
    }
}

} // verus!
