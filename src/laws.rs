use vstd::prelude::*;
use crate::accounts::{AgentPolicy, Authorization, Meter};
use crate::error::{AgentBlinkPayError, InstructionError};
use crate::keys::{AuthKey, MeterKey, Pubkey};
use crate::ledger::{authorize_outcome, issued, paid_event, record_outcome, tickets_step, Ledger};

verus! {

/// A compliant request against an unfrozen policy, with an accepting
/// verifier and a free key, is authorized; the ticket it creates is consumed
/// by the first record before expiry, and every later record of it fails
/// with `AuthorizationUsed`.
pub proof fn lemma_compliant_payment_consumed_once(
    policy: AgentPolicy,
    meter: Meter,
    agent: Pubkey,
    meter_key: MeterKey,
    amount: u64,
    category: u8,
    nonce: u64,
    expires_at_slot: u64,
    now: u64,
    later: u64,
)
    requires
        !policy.frozen,
        amount <= policy.max_per_tx,
        category == policy.allowed_category,
        category == meter.category,
        now <= expires_at_slot,
    ensures
        authorize_outcome(policy, meter, category, true, false) == Ok::<(), InstructionError>(()),
        record_outcome(issued(agent, meter_key, amount, category, nonce, expires_at_slot), now)
            == Ok::<_, InstructionError>(
            paid_event(issued(agent, meter_key, amount, category, nonce, expires_at_slot), now),
        ),
        record_outcome(
            issued(agent, meter_key, amount, category, nonce, expires_at_slot).consumed(),
            later,
        ) == Err::<crate::accounts::MeterPaid, InstructionError>(
            InstructionError::Program(AgentBlinkPayError::AuthorizationUsed),
        ),
{
}

/// A frozen policy refuses every request with `PolicyFrozen`, whatever the
/// meter, the category, the verifier's verdict or the key's occupancy.
pub proof fn lemma_frozen_policy_refuses(
    policy: AgentPolicy,
    meter: Meter,
    category: u8,
    accepted: bool,
    occupied: bool,
)
    requires
        policy.frozen,
    ensures
        authorize_outcome(policy, meter, category, accepted, occupied) == Err::<(), InstructionError>(
            InstructionError::Program(AgentBlinkPayError::PolicyFrozen),
        ),
{
}

/// Against an unfrozen policy, a category other than the meter's fails
/// with `CategoryMismatch`, whatever the verifier would say.
pub proof fn lemma_category_mismatch_refuses(
    policy: AgentPolicy,
    meter: Meter,
    category: u8,
    accepted: bool,
    occupied: bool,
)
    requires
        !policy.frozen,
        category != meter.category,
    ensures
        authorize_outcome(policy, meter, category, accepted, occupied) == Err::<(), InstructionError>(
            InstructionError::Program(AgentBlinkPayError::CategoryMismatch),
        ),
{
}

/// An unused ticket past its expiry fails with `AuthorizationExpired` at
/// that slot and at every later one, so it can never be consumed.
pub proof fn lemma_expired_ticket_never_consumed(auth: Authorization, now: u64, later: u64)
    requires
        !auth.used,
        now > auth.expires_at_slot,
        later >= now,
    ensures
        record_outcome(auth, now) == Err::<crate::accounts::MeterPaid, InstructionError>(
            InstructionError::Program(AgentBlinkPayError::AuthorizationExpired),
        ),
        record_outcome(auth, later) == Err::<crate::accounts::MeterPaid, InstructionError>(
            InstructionError::Program(AgentBlinkPayError::AuthorizationExpired),
        ),
{
}

/// An unused ticket already past its expiry at slot `now0` is left exactly
/// as it was by any run of instructions at slots from `now0` on
/// (`ledgers[k + 1]` comes from `ledgers[k]` by an instruction at `slots[k]`),
/// and a record of it at any such slot fails with `AuthorizationExpired`.
pub proof fn lemma_expired_ticket_stays_unconsumed(
    ledgers: Seq<Ledger>,
    slots: Seq<u64>,
    i: int,
    now0: u64,
    later: u64,
)
    requires
        ledgers.len() == slots.len() + 1,
        0 <= i < ledgers[0].authorizations().len(),
        !ledgers[0].authorizations()[i].used,
        now0 > ledgers[0].authorizations()[i].expires_at_slot,
        later >= now0,
        forall|k: int|
            #![trigger slots[k]]
            0 <= k < slots.len() ==> slots[k] >= now0 && tickets_step(
                ledgers[k],
                ledgers[k + 1],
                slots[k],
            ),
    ensures
        i < ledgers.last().authorizations().len(),
        ledgers.last().authorizations()[i] == ledgers[0].authorizations()[i],
        record_outcome(ledgers.last().authorizations()[i], later) == Err::<
            crate::accounts::MeterPaid,
            InstructionError,
        >(InstructionError::Program(AgentBlinkPayError::AuthorizationExpired)),
    decreases slots.len(),
{
    if slots.len() > 0 {
        let n = slots.len() - 1;
        let prefix = ledgers.drop_last();
        assert forall|k: int|
            #![trigger slots.drop_last()[k]]
            0 <= k < slots.drop_last().len() implies slots.drop_last()[k] >= now0 && tickets_step(
                prefix[k],
                prefix[k + 1],
                slots.drop_last()[k],
            ) by {
            assert(slots[k] >= now0);
        }
        lemma_expired_ticket_stays_unconsumed(prefix, slots.drop_last(), i, now0, later);
        assert(slots[n] >= now0);
        assert(prefix.last() == ledgers[n]);
        assert(tickets_step(ledgers[n], ledgers[n + 1], slots[n]));
        assert(ledgers[n + 1].authorizations()[i] == ledgers[n].authorizations()[i]);
    }
}

/// Once a ticket is issued its key is occupied, so a second request with the
/// same agent, meter and nonce fails with `AccountAlreadyInUse` even when
/// its own proof is accepted.
pub proof fn lemma_issued_key_refuses_reissue(
    before: Ledger,
    after: Ledger,
    policy: AgentPolicy,
    meter: Meter,
    agent: Pubkey,
    meter_key: MeterKey,
    amount: u64,
    category: u8,
    nonce: u64,
    expires_at_slot: u64,
)
    requires
        after.authorizations() == before.authorizations().push(
            issued(agent, meter_key, amount, category, nonce, expires_at_slot),
        ),
        !policy.frozen,
        category == meter.category,
    ensures
        after.has_authorization(AuthKey { agent, meter: meter_key, nonce }),
        authorize_outcome(
            policy,
            meter,
            category,
            true,
            after.has_authorization(AuthKey { agent, meter: meter_key, nonce }),
        ) == Err::<(), InstructionError>(InstructionError::AccountAlreadyInUse),
{
    let k = before.authorizations().len() as int;
    assert(after.authorizations()[k].key() == (AuthKey { agent, meter: meter_key, nonce }));
}

} // verus!
