//! An authorization ledger for agent payments: spending policies, metered
//! endpoints, and one-time, expiring payment tickets issued only after a
//! compliance proof is accepted.

pub mod accounts;
pub mod categories;
pub mod error;
pub mod keys;
pub mod laws;
pub mod ledger;
pub mod proof_check;

pub use accounts::{AgentPolicy, Authorization, Meter, MeterPaid};
pub use error::{AgentBlinkPayError, InstructionError};
pub use keys::{AuthKey, MeterKey, Pubkey};
pub use ledger::{
    authorize_payment_with_proof, create_meter, record_meter_payment, set_policy, AuthorizePayment,
    CreateMeter, Ledger, RecordPayment, SetPolicy,
};
pub use proof_check::{verify_payment_policy_proof, MockVerifier, ProofVerifier, StubVerifier};
