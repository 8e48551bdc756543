use vstd::prelude::*;

verus! {

/// Failures raised by the payment rules themselves.
#[derive(Clone, Copy, Debug, PartialEq, Eq, Structural)]
pub enum AgentBlinkPayError {
    /// The agent's policy is frozen: no payment may be authorized.
    PolicyFrozen,
    /// The amount is above the policy's per-transaction maximum.
    AmountExceedsMax,
    /// The authorization was already consumed.
    AuthorizationUsed,
    /// The current slot is past the authorization's expiry.
    AuthorizationExpired,
    /// The payment's category differs from the meter's.
    CategoryMismatch,
    /// The compliance proof was rejected.
    InvalidProof,
    /// The merchant wallet reference is longer than 64 bytes.
    MerchantWalletIdTooLong,
}

/// Every way an instruction can fail: a rule of the program, or a record
/// that is missing or already taken at its key.
#[derive(Clone, Copy, Debug, PartialEq, Eq, Structural)]
pub enum InstructionError {
    Program(AgentBlinkPayError),
    /// A record already occupies the key that was to be created.
    AccountAlreadyInUse,
    /// No record exists at the key that was looked up.
    AccountNotInitialized,
}

} // verus!
