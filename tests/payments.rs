use agent_blink_pay::categories::{AI_API, DATA_FEED};
use agent_blink_pay::{
    authorize_payment_with_proof, create_meter, record_meter_payment, set_policy,
    verify_payment_policy_proof, AgentBlinkPayError, AuthKey, AuthorizePayment, CreateMeter,
    InstructionError, Ledger, MeterKey, MockVerifier, Pubkey, RecordPayment, SetPolicy,
    StubVerifier,
};

fn key(n: u64) -> Pubkey {
    Pubkey::new(n, 0, 0, n)
}

fn agent() -> Pubkey {
    key(1)
}

fn meter_key() -> MeterKey {
    MeterKey { authority: key(2), meter_id: key(3) }
}

fn setup(frozen: bool, meter_category: u8) -> Ledger {
    let mut ledger = Ledger::new();
    set_policy(
        &mut ledger,
        &SetPolicy { agent: agent(), payer: key(9) },
        [7u8; 32],
        AI_API,
        500000,
        frozen,
    );
    create_meter(
        &mut ledger,
        &CreateMeter { authority: key(2), meter_id: key(3) },
        50000,
        meter_category,
        String::from("wallet-123"),
        true,
    )
    .unwrap();
    ledger
}

fn authorize(
    ledger: &mut Ledger,
    verifier: &mut MockVerifier,
    amount: u64,
    category: u8,
    nonce: u64,
    expires_at_slot: u64,
) -> Result<(), InstructionError> {
    let ctx = AuthorizePayment { agent: agent(), meter: meter_key(), payer: key(9) };
    authorize_payment_with_proof(
        ledger,
        verifier,
        &ctx,
        amount,
        category,
        nonce,
        expires_at_slot,
        &vec![1u8, 2, 3],
    )
}

fn record(ledger: &mut Ledger, nonce: u64, slot: u64) -> Result<agent_blink_pay::MeterPaid, InstructionError> {
    record_meter_payment(ledger, &RecordPayment { agent: agent(), meter: meter_key() }, nonce, slot)
}

fn auth_key(nonce: u64) -> AuthKey {
    AuthKey { agent: agent(), meter: meter_key(), nonce }
}

#[test]
fn authorize_then_record_emits_event() {
    let mut ledger = setup(false, AI_API);
    let mut v = MockVerifier::new(true);
    assert_eq!(authorize(&mut ledger, &mut v, 400000, AI_API, 7, 100), Ok(()));
    let a = ledger.authorization(auth_key(7)).unwrap();
    assert!(!a.used);
    assert_eq!(a.amount, 400000);
    let ev = record(&mut ledger, 7, 50).unwrap();
    assert_eq!(ev.amount, 400000);
    assert_eq!(ev.nonce, 7);
    assert_eq!(ev.category, AI_API);
    assert_eq!(ev.slot, 50);
    assert_eq!(ev.agent, agent());
    assert_eq!(ev.meter, meter_key());
    assert!(ledger.authorization(auth_key(7)).unwrap().used);
    assert_eq!(ledger.emitted_events().len(), 1);
    assert_eq!(ledger.emitted_events()[0], ev);
}

#[test]
fn frozen_policy_fails_and_creates_nothing() {
    let mut ledger = setup(true, AI_API);
    let mut v = MockVerifier::new(true);
    assert_eq!(
        authorize(&mut ledger, &mut v, 400000, AI_API, 7, 100),
        Err(InstructionError::Program(AgentBlinkPayError::PolicyFrozen))
    );
    assert!(ledger.authorization(auth_key(7)).is_none());
    assert_eq!(v.calls, 0);
    let mut reject = MockVerifier::new(false);
    assert_eq!(
        authorize(&mut ledger, &mut reject, 400000, AI_API, 8, 100),
        Err(InstructionError::Program(AgentBlinkPayError::PolicyFrozen))
    );
}

#[test]
fn category_mismatch_fails_without_verifier() {
    let mut ledger = setup(false, AI_API);
    let mut v = MockVerifier::new(true);
    assert_eq!(
        authorize(&mut ledger, &mut v, 400000, DATA_FEED, 7, 100),
        Err(InstructionError::Program(AgentBlinkPayError::CategoryMismatch))
    );
    assert_eq!(v.calls, 0);
    assert!(ledger.authorization(auth_key(7)).is_none());
}

#[test]
fn rejected_proof_fails_invalid_proof() {
    let mut ledger = setup(false, AI_API);
    let mut v = MockVerifier::new(false);
    assert_eq!(
        authorize(&mut ledger, &mut v, 400000, AI_API, 7, 100),
        Err(InstructionError::Program(AgentBlinkPayError::InvalidProof))
    );
    assert_eq!(v.calls, 1);
    assert!(ledger.authorization(auth_key(7)).is_none());
}

#[test]
fn record_after_expiry_fails_and_stays_unused() {
    let mut ledger = setup(false, AI_API);
    let mut v = MockVerifier::new(true);
    let t: u64 = 100;
    assert_eq!(authorize(&mut ledger, &mut v, 400000, AI_API, 7, t), Ok(()));
    assert_eq!(
        record(&mut ledger, 7, t + 1),
        Err(InstructionError::Program(AgentBlinkPayError::AuthorizationExpired))
    );
    assert!(!ledger.authorization(auth_key(7)).unwrap().used);
    assert_eq!(
        record(&mut ledger, 7, t + 1000),
        Err(InstructionError::Program(AgentBlinkPayError::AuthorizationExpired))
    );
    assert!(!ledger.authorization(auth_key(7)).unwrap().used);
    assert!(ledger.emitted_events().is_empty());
}

#[test]
fn record_at_expiry_slot_succeeds() {
    let mut ledger = setup(false, AI_API);
    let mut v = MockVerifier::new(true);
    assert_eq!(authorize(&mut ledger, &mut v, 1, AI_API, 3, 100), Ok(()));
    assert!(record(&mut ledger, 3, 100).is_ok());
}

#[test]
fn second_record_fails_authorization_used() {
    let mut ledger = setup(false, AI_API);
    let mut v = MockVerifier::new(true);
    assert_eq!(authorize(&mut ledger, &mut v, 400000, AI_API, 7, 100), Ok(()));
    assert!(record(&mut ledger, 7, 10).is_ok());
    assert_eq!(
        record(&mut ledger, 7, 11),
        Err(InstructionError::Program(AgentBlinkPayError::AuthorizationUsed))
    );
    assert_eq!(ledger.emitted_events().len(), 1);
}

#[test]
fn duplicate_nonce_fails_even_with_valid_proof() {
    let mut ledger = setup(false, AI_API);
    let mut v = MockVerifier::new(true);
    assert_eq!(authorize(&mut ledger, &mut v, 400000, AI_API, 7, 100), Ok(()));
    assert_eq!(
        authorize(&mut ledger, &mut v, 1000, AI_API, 7, 200),
        Err(InstructionError::AccountAlreadyInUse)
    );
    let a = ledger.authorization(auth_key(7)).unwrap();
    assert_eq!(a.amount, 400000);
    assert_eq!(a.expires_at_slot, 100);
    assert_eq!(authorize(&mut ledger, &mut v, 1000, AI_API, 8, 200), Ok(()));
}

#[test]
fn record_unknown_ticket_fails() {
    let mut ledger = setup(false, AI_API);
    assert_eq!(record(&mut ledger, 42, 1), Err(InstructionError::AccountNotInitialized));
}

#[test]
fn authorize_without_policy_or_meter_fails() {
    let mut ledger = Ledger::new();
    let mut v = MockVerifier::new(true);
    assert_eq!(
        authorize(&mut ledger, &mut v, 1, AI_API, 1, 10),
        Err(InstructionError::AccountNotInitialized)
    );
    assert_eq!(v.calls, 0);
}

#[test]
fn wallet_ref_of_65_bytes_is_refused() {
    let mut ledger = Ledger::new();
    let ctx = CreateMeter { authority: key(2), meter_id: key(3) };
    let long = "a".repeat(65);
    assert_eq!(
        create_meter(&mut ledger, &ctx, 50000, AI_API, long, false),
        Err(InstructionError::Program(AgentBlinkPayError::MerchantWalletIdTooLong))
    );
    assert!(ledger.meter(meter_key()).is_none());
    let max = "b".repeat(64);
    assert_eq!(create_meter(&mut ledger, &ctx, 50000, AI_API, max.clone(), false), Ok(()));
    assert_eq!(ledger.meter(meter_key()).unwrap().merchant_wallet_id(), max.into_bytes());
}

#[test]
fn wallet_ref_of_10_bytes_round_trips() {
    let mut ledger = Ledger::new();
    let ctx = CreateMeter { authority: key(2), meter_id: key(3) };
    assert_eq!(create_meter(&mut ledger, &ctx, 50000, AI_API, String::from("0123456789"), true), Ok(()));
    let m = ledger.meter(meter_key()).unwrap();
    assert_eq!(m.merchant_wallet_id_len, 10);
    assert_eq!(m.merchant_wallet_id(), b"0123456789".to_vec());
    assert!(m.merchant_wallet_id[10..].iter().all(|b| *b == 0));
    assert_eq!(m.price_per_call, 50000);
    assert_eq!(m.category, AI_API);
    assert!(m.requires_zk);
}

#[test]
fn duplicate_meter_is_refused() {
    let mut ledger = setup(false, AI_API);
    let ctx = CreateMeter { authority: key(2), meter_id: key(3) };
    assert_eq!(
        create_meter(&mut ledger, &ctx, 1, DATA_FEED, String::from("x"), false),
        Err(InstructionError::AccountAlreadyInUse)
    );
    assert_eq!(ledger.meter(meter_key()).unwrap().price_per_call, 50000);
}

#[test]
fn set_policy_overwrites_in_place() {
    let mut ledger = setup(false, AI_API);
    set_policy(&mut ledger, &SetPolicy { agent: agent(), payer: key(9) }, [1u8; 32], DATA_FEED, 10, true);
    let p = ledger.policy(agent()).unwrap();
    assert_eq!(p.allowed_category, DATA_FEED);
    assert_eq!(p.max_per_tx, 10);
    assert!(p.frozen);
    assert_eq!(p.policy_hash, [1u8; 32]);
    assert!(ledger.policy(key(5)).is_none());
}

#[test]
fn stub_verifier_accepts_non_empty_proofs_only() {
    assert_eq!(verify_payment_policy_proof(&vec![], 1, 1, &[0u8; 32]), Err(AgentBlinkPayError::InvalidProof));
    assert_eq!(verify_payment_policy_proof(&vec![0u8], 1, 1, &[0u8; 32]), Ok(()));
    let mut ledger = setup(false, AI_API);
    let ctx = AuthorizePayment { agent: agent(), meter: meter_key(), payer: key(9) };
    let mut stub = StubVerifier;
    assert_eq!(
        authorize_payment_with_proof(&mut ledger, &mut stub, &ctx, 5, AI_API, 1, 10, &vec![]),
        Err(InstructionError::Program(AgentBlinkPayError::InvalidProof))
    );
    assert_eq!(authorize_payment_with_proof(&mut ledger, &mut stub, &ctx, 5, AI_API, 1, 10, &vec![9u8]), Ok(()));
}

#[test]
fn taken_meter_key_refused_before_wallet_length() {
    let mut ledger = setup(false, AI_API);
    let ctx = CreateMeter { authority: key(2), meter_id: key(3) };
    assert_eq!(
        create_meter(&mut ledger, &ctx, 1, DATA_FEED, "c".repeat(65), false),
        Err(InstructionError::AccountAlreadyInUse)
    );
    assert_eq!(ledger.meter(meter_key()).unwrap().price_per_call, 50000);
}

#[test]
fn verifier_called_once_when_checks_pass() {
    let mut ledger = setup(false, AI_API);
    let mut v = MockVerifier::new(true);
    assert_eq!(authorize(&mut ledger, &mut v, 400000, AI_API, 7, 100), Ok(()));
    assert_eq!(v.calls, 1);
    assert_eq!(
        authorize(&mut ledger, &mut v, 400000, AI_API, 7, 100),
        Err(InstructionError::AccountAlreadyInUse)
    );
    assert_eq!(v.calls, 2);
}
