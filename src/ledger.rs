use vstd::prelude::*;
use vstd::utf8::encode_utf8;
use crate::accounts::{AgentPolicy, Authorization, Meter, MeterPaid, MAX_WALLET_ID_LEN};
use crate::error::{AgentBlinkPayError, InstructionError};
use crate::keys::{AuthKey, MeterKey, Pubkey};
use crate::proof_check::ProofVerifier;

verus! {

/// The keyed record store: at most one policy per agent, one meter per
/// meter key and one authorization per (agent, meter, nonce), plus the
/// outbox of settlement events in the order they were emitted.
pub struct Ledger {
    policies: Vec<AgentPolicy>,
    meters: Vec<Meter>,
    authorizations: Vec<Authorization>,
    events: Vec<MeterPaid>,
}

/// Signers of `set_policy`: the agent, and the payer of storage (no say over content).
pub struct SetPolicy {
    pub agent: Pubkey,
    pub payer: Pubkey,
}

/// Signer and endpoint identifier of `create_meter`.
pub struct CreateMeter {
    pub authority: Pubkey,
    pub meter_id: Pubkey,
}

/// The agent asking for a ticket, the meter it pays, and the payer of storage.
pub struct AuthorizePayment {
    pub agent: Pubkey,
    pub meter: MeterKey,
    pub payer: Pubkey,
}

/// The agent and meter whose ticket is consumed.
pub struct RecordPayment {
    pub agent: Pubkey,
    pub meter: MeterKey,
}

/// The ticket that a successful authorization creates.
pub open spec fn issued(
    agent: Pubkey,
    meter: MeterKey,
    amount: u64,
    category: u8,
    nonce: u64,
    expires_at_slot: u64,
) -> Authorization {
    Authorization { agent, meter, amount, category, nonce, expires_at_slot, used: false }
}

/// What an authorization request against an existing policy and meter
/// returns, checks in order: freeze, category, proof, then key occupancy.
pub open spec fn authorize_outcome(
    policy: AgentPolicy,
    meter: Meter,
    category: u8,
    accepted: bool,
    occupied: bool,
) -> Result<(), InstructionError> {
    if policy.frozen {
        Err(InstructionError::Program(AgentBlinkPayError::PolicyFrozen))
    } else if meter.category != category {
        Err(InstructionError::Program(AgentBlinkPayError::CategoryMismatch))
    } else if !accepted {
        Err(InstructionError::Program(AgentBlinkPayError::InvalidProof))
    } else if occupied {
        Err(InstructionError::AccountAlreadyInUse)
    } else {
        Ok(())
    }
}

/// The settlement event for consuming `auth` at slot `now`.
pub open spec fn paid_event(auth: Authorization, now: u64) -> MeterPaid {
    MeterPaid {
        agent: auth.agent,
        meter: auth.meter,
        amount: auth.amount,
        category: auth.category,
        nonce: auth.nonce,
        slot: now,
    }
}

/// What recording a payment against an existing ticket returns at slot `now`.
pub open spec fn record_outcome(auth: Authorization, now: u64) -> Result<MeterPaid, InstructionError> {
    if auth.used {
        Err(InstructionError::Program(AgentBlinkPayError::AuthorizationUsed))
    } else if now > auth.expires_at_slot {
        Err(InstructionError::Program(AgentBlinkPayError::AuthorizationExpired))
    } else {
        Ok(paid_event(auth, now))
    }
}

/// How tickets may change from `before` to `after` through one instruction
/// run at `slot`: each existing ticket keeps its place and is either left as
/// it was or, if redeemable at `slot`, consumed; new tickets come after them.
pub open spec fn tickets_step(before: Ledger, after: Ledger, slot: u64) -> bool {
    &&& before.authorizations().len() <= after.authorizations().len()
    &&& forall|i: int|
        #![trigger after.authorizations()[i]]
        0 <= i < before.authorizations().len() ==> after.authorizations()[i]
            == before.authorizations()[i] || (before.authorizations()[i].redeemable(slot)
            && after.authorizations()[i] == before.authorizations()[i].consumed())
}

/// The meter that `create_meter` stores for a wallet reference of `len` bytes.
pub open spec fn meter_holds(m: Meter, key: MeterKey, price_per_call: u64, category: u8, wallet: Seq<u8>, requires_zk: bool) -> bool {
    &&& m.key() == key
    &&& m.price_per_call == price_per_call
    &&& m.category == category
    &&& m.requires_zk == requires_zk
    &&& m.merchant_wallet_id_len == wallet.len()
    &&& m.wallet_id_view() == wallet
    &&& m.wf()
}

impl Ledger {
    pub closed spec fn policies(&self) -> Seq<AgentPolicy> {
        self.policies@
    }

    pub closed spec fn meters(&self) -> Seq<Meter> {
        self.meters@
    }

    pub closed spec fn authorizations(&self) -> Seq<Authorization> {
        self.authorizations@
    }

    pub closed spec fn events(&self) -> Seq<MeterPaid> {
        self.events@
    }

    pub open spec fn has_policy(&self, agent: Pubkey) -> bool {
        exists|i: int| 0 <= i < self.policies().len() && self.policies()[i].agent_pubkey == agent
    }

    pub open spec fn has_meter(&self, key: MeterKey) -> bool {
        exists|i: int| 0 <= i < self.meters().len() && self.meters()[i].key() == key
    }

    pub open spec fn has_authorization(&self, key: AuthKey) -> bool {
        exists|i: int|
            0 <= i < self.authorizations().len() && self.authorizations()[i].key() == key
    }

    /// Keys are unique in every table and every stored meter is well formed.
    pub closed spec fn wf(&self) -> bool {
        &&& forall|i: int, j: int|
            #![trigger self.policies@[i], self.policies@[j]]
            0 <= i < j < self.policies@.len() ==> self.policies@[i].agent_pubkey
                != self.policies@[j].agent_pubkey
        &&& forall|i: int, j: int|
            #![trigger self.meters@[i], self.meters@[j]]
            0 <= i < j < self.meters@.len() ==> self.meters@[i].key() != self.meters@[j].key()
        &&& forall|i: int, j: int|
            #![trigger self.authorizations@[i], self.authorizations@[j]]
            0 <= i < j < self.authorizations@.len() ==> self.authorizations@[i].key()
                != self.authorizations@[j].key()
        &&& forall|i: int| 0 <= i < self.meters@.len() ==> self.meters@[i].wf()
    }

    /// In a well-formed ledger no two policies share an agent, no two meters
    /// a meter key, no two tickets a ticket key, and every meter is well formed.
    pub proof fn lemma_unique_keys(&self)
        requires
            self.wf(),
        ensures
            forall|i: int, j: int|
                0 <= i < self.policies().len() && 0 <= j < self.policies().len()
                    && self.policies()[i].agent_pubkey == self.policies()[j].agent_pubkey ==> i == j,
            forall|i: int, j: int|
                0 <= i < self.meters().len() && 0 <= j < self.meters().len() && self.meters()[i].key()
                    == self.meters()[j].key() ==> i == j,
            forall|i: int, j: int|
                0 <= i < self.authorizations().len() && 0 <= j < self.authorizations().len()
                    && self.authorizations()[i].key() == self.authorizations()[j].key() ==> i == j,
            forall|i: int| 0 <= i < self.meters().len() ==> self.meters()[i].wf(),
    {
        assert forall|i: int, j: int|
            0 <= i < self.policies().len() && 0 <= j < self.policies().len()
                && self.policies()[i].agent_pubkey == self.policies()[j].agent_pubkey implies i == j by {
            if i < j {
                assert(self.policies@[i].agent_pubkey != self.policies@[j].agent_pubkey);
            } else if j < i {
                assert(self.policies@[j].agent_pubkey != self.policies@[i].agent_pubkey);
            }
        }
        assert forall|i: int, j: int|
            0 <= i < self.meters().len() && 0 <= j < self.meters().len() && self.meters()[i].key()
                == self.meters()[j].key() implies i == j by {
            if i < j {
                assert(self.meters@[i].key() != self.meters@[j].key());
            } else if j < i {
                assert(self.meters@[j].key() != self.meters@[i].key());
            }
        }
        assert forall|i: int, j: int|
            0 <= i < self.authorizations().len() && 0 <= j < self.authorizations().len()
                && self.authorizations()[i].key() == self.authorizations()[j].key() implies i == j by {
            if i < j {
                assert(self.authorizations@[i].key() != self.authorizations@[j].key());
            } else if j < i {
                assert(self.authorizations@[j].key() != self.authorizations@[i].key());
            }
        }
    }

    pub fn new() -> (r: Ledger)
        ensures
            r.wf(),
            r.policies().len() == 0,
            r.meters().len() == 0,
            r.authorizations().len() == 0,
            r.events().len() == 0,
    {
        Ledger { policies: Vec::new(), meters: Vec::new(), authorizations: Vec::new(), events: Vec::new() }
    }

    /// The agent's policy, if it has one.
    pub fn policy(&self, agent: Pubkey) -> (r: Option<AgentPolicy>)
        ensures
            r is None <==> !self.has_policy(agent),
            r matches Some(p) ==> exists|i: int|
                0 <= i < self.policies().len() && self.policies()[i] == p && p.agent_pubkey == agent,
    {
        match self.find_policy(agent) {
            Some(i) => Some(self.policies[i]),
            None => None,
        }
    }

    /// The meter registered at `key`, if any.
    pub fn meter(&self, key: MeterKey) -> (r: Option<Meter>)
        requires
            self.wf(),
        ensures
            r is None <==> !self.has_meter(key),
            r matches Some(m) ==> m.wf() && exists|i: int|
                0 <= i < self.meters().len() && self.meters()[i] == m && m.key() == key,
    {
        match self.find_meter(key) {
            Some(i) => {
                proof {
                    assert(self.meters()[i as int].wf());
                }
                Some(self.meters[i])
            },
            None => None,
        }
    }

    /// The ticket at `key`, if one was issued.
    pub fn authorization(&self, key: AuthKey) -> (r: Option<Authorization>)
        ensures
            r is None <==> !self.has_authorization(key),
            r matches Some(a) ==> exists|i: int|
                0 <= i < self.authorizations().len() && self.authorizations()[i] == a && a.key()
                    == key,
    {
        match self.find_authorization(key) {
            Some(i) => Some(self.authorizations[i]),
            None => None,
        }
    }

    /// The settlement events emitted so far, oldest first.
    pub fn emitted_events(&self) -> (r: &Vec<MeterPaid>)
        ensures
            r@ == self.events(),
    {
        &self.events
    }

    fn find_policy(&self, agent: Pubkey) -> (r: Option<usize>)
        ensures
            match r {
                Some(i) => i < self.policies().len() && self.policies()[i as int].agent_pubkey == agent,
                None => !self.has_policy(agent),
            },
    {
        let mut i: usize = 0;
        while i < self.policies.len()
            invariant
                i <= self.policies@.len(),
                forall|j: int| 0 <= j < i ==> self.policies@[j].agent_pubkey != agent,
            decreases self.policies@.len() - i,
        {
            if self.policies[i].agent_pubkey == agent {
                return Some(i);
            }
            i = i + 1;
        }
        None
    }

    fn find_meter(&self, key: MeterKey) -> (r: Option<usize>)
        ensures
            match r {
                Some(i) => i < self.meters().len() && self.meters()[i as int].key() == key,
                None => !self.has_meter(key),
            },
    {
        let mut i: usize = 0;
        while i < self.meters.len()
            invariant
                i <= self.meters@.len(),
                forall|j: int| 0 <= j < i ==> self.meters@[j].key() != key,
            decreases self.meters@.len() - i,
        {
            let m = &self.meters[i];
            if m.authority == key.authority && m.meter_id == key.meter_id {
                return Some(i);
            }
            i = i + 1;
        }
        None
    }

    fn find_authorization(&self, key: AuthKey) -> (r: Option<usize>)
        ensures
            match r {
                Some(i) => i < self.authorizations().len() && self.authorizations()[i as int].key()
                    == key,
                None => !self.has_authorization(key),
            },
    {
        let mut i: usize = 0;
        while i < self.authorizations.len()
            invariant
                i <= self.authorizations@.len(),
                forall|j: int| 0 <= j < i ==> self.authorizations@[j].key() != key,
            decreases self.authorizations@.len() - i,
        {
            let a = &self.authorizations[i];
            if a.agent == key.agent && a.meter == key.meter && a.nonce == key.nonce {
                return Some(i);
            }
            i = i + 1;
        }
        None
    }
}

/// The policy record that `set_policy` writes.
pub open spec fn policy_record(
    agent: Pubkey,
    policy_hash: [u8; 32],
    allowed_category: u8,
    max_per_tx: u64,
    frozen: bool,
) -> AgentPolicy {
    AgentPolicy { agent_pubkey: agent, policy_hash, allowed_category, max_per_tx, frozen }
}

/// Creates the agent's policy, or overwrites every field of the one it has.
pub fn set_policy(
    ledger: &mut Ledger,
    ctx: &SetPolicy,
    policy_hash: [u8; 32],
    allowed_category: u8,
    max_per_tx: u64,
    frozen: bool,
)
    requires
        old(ledger).wf(),
    ensures
        final(ledger).wf(),
        forall|i: int|
            0 <= i < old(ledger).policies().len() && old(ledger).policies()[i].agent_pubkey
                == ctx.agent ==> final(ledger).policies() == old(ledger).policies().update(
                i,
                policy_record(ctx.agent, policy_hash, allowed_category, max_per_tx, frozen),
            ),
        !old(ledger).has_policy(ctx.agent) ==> final(ledger).policies() == old(
            ledger,
        ).policies().push(policy_record(ctx.agent, policy_hash, allowed_category, max_per_tx, frozen)),
        final(ledger).meters() == old(ledger).meters(),
        final(ledger).authorizations() == old(ledger).authorizations(),
        final(ledger).events() == old(ledger).events(),
        forall|slot: u64| #[trigger] tickets_step(*old(ledger), *final(ledger), slot),
{
    let policy = AgentPolicy {
        agent_pubkey: ctx.agent,
        policy_hash,
        allowed_category,
        max_per_tx,
        frozen,
    };
    match ledger.find_policy(ctx.agent) {
        Some(i) => {
            ledger.policies[i] = policy;
            assert(forall|k: int|
                0 <= k < ledger.policies@.len() ==> ledger.policies@[k].agent_pubkey
                    == old(ledger).policies@[k].agent_pubkey);
            proof {
                assert forall|j: int|
                    0 <= j < old(ledger).policies().len() && old(ledger).policies()[j].agent_pubkey
                        == ctx.agent implies j == i by {
                    if j < i {
                        assert(old(ledger).policies()[j].agent_pubkey != old(ledger).policies()[i as int].agent_pubkey);
                    } else if j > i {
                        assert(old(ledger).policies()[i as int].agent_pubkey != old(ledger).policies()[j].agent_pubkey);
                    }
                }
            }
        },
        None => {
            assert(forall|k: int|
                0 <= k < old(ledger).policies@.len() ==> old(ledger).policies@[k].agent_pubkey
                    != ctx.agent);
            ledger.policies.push(policy);


        },
    }
}

/// Registers a meter at (authority, meter id); a taken key is refused before
/// the wallet reference is looked at. The wallet reference is kept
/// byte for byte with its length; the rest of the 64-byte buffer is zero.
pub fn create_meter(
    ledger: &mut Ledger,
    ctx: &CreateMeter,
    price_per_call: u64,
    category: u8,
    merchant_wallet_id: String,
    requires_zk: bool,
) -> (r: Result<(), InstructionError>)
    requires
        old(ledger).wf(),
    ensures
        final(ledger).wf(),
        old(ledger).has_meter(MeterKey { authority: ctx.authority, meter_id: ctx.meter_id }) ==> r
            == Err::<(), InstructionError>(InstructionError::AccountAlreadyInUse),
        !old(ledger).has_meter(MeterKey { authority: ctx.authority, meter_id: ctx.meter_id })
            && encode_utf8(merchant_wallet_id@).len() > MAX_WALLET_ID_LEN ==> r == Err::<
            (),
            InstructionError,
        >(InstructionError::Program(AgentBlinkPayError::MerchantWalletIdTooLong)),
        !old(ledger).has_meter(MeterKey { authority: ctx.authority, meter_id: ctx.meter_id })
            && encode_utf8(merchant_wallet_id@).len() <= MAX_WALLET_ID_LEN ==> r is Ok,
        r is Ok ==> {
            &&& final(ledger).meters().len() == old(ledger).meters().len() + 1
            &&& final(ledger).meters().drop_last() == old(ledger).meters()
            &&& meter_holds(
                final(ledger).meters().last(),
                MeterKey { authority: ctx.authority, meter_id: ctx.meter_id },
                price_per_call,
                category,
                encode_utf8(merchant_wallet_id@),
                requires_zk,
            )
            &&& final(ledger).policies() == old(ledger).policies()
            &&& final(ledger).authorizations() == old(ledger).authorizations()
            &&& final(ledger).events() == old(ledger).events()
        },
        r is Err ==> *final(ledger) == *old(ledger),
        forall|slot: u64| #[trigger] tickets_step(*old(ledger), *final(ledger), slot),
{
    let key = MeterKey { authority: ctx.authority, meter_id: ctx.meter_id };
    if ledger.find_meter(key).is_some() {
        return Err(InstructionError::AccountAlreadyInUse);
    }
    let id_bytes: &[u8] = merchant_wallet_id.as_str().as_bytes();
    if id_bytes.len() > MAX_WALLET_ID_LEN {
        return Err(InstructionError::Program(AgentBlinkPayError::MerchantWalletIdTooLong));
    }
    let n = id_bytes.len();
    let mut wallet_id_bytes = [0u8; 64];
    let mut i: usize = 0;
    while i < n
        invariant
            n == id_bytes@.len(),
            n <= 64,
            i <= n,
            forall|k: int| 0 <= k < i ==> wallet_id_bytes@[k] == id_bytes@[k],
            forall|k: int| n <= k < 64 ==> wallet_id_bytes@[k] == 0u8,
        decreases n - i,
    {
        wallet_id_bytes[i] = id_bytes[i];
        i = i + 1;
    }
    let meter = Meter {
        authority: ctx.authority,
        meter_id: ctx.meter_id,
        price_per_call,
        category,
        merchant_wallet_id: wallet_id_bytes,
        merchant_wallet_id_len: n as u8,
        requires_zk,
    };
    assert(meter.wallet_id_view() =~= id_bytes@);
    assert(meter.wf());
    assert forall|k: int| 0 <= k < old(ledger).meters@.len() implies old(ledger).meters@[k].key()
        != key by {
        assert(old(ledger).meters()[k] == old(ledger).meters@[k]);
    }
    ledger.meters.push(meter);
    assert(ledger.meters@.drop_last() =~= old(ledger).meters@);
    Ok(())
}

/// Issues a one-time ticket at (agent, meter, nonce). Checks, in order: the
/// policy is not frozen, the category is the meter's, the verifier accepts
/// the proof, and the key is free. The verifier is not consulted when one of
/// the first two checks fails.
pub fn authorize_payment_with_proof<V: ProofVerifier>(
    ledger: &mut Ledger,
    verifier: &mut V,
    ctx: &AuthorizePayment,
    amount: u64,
    category: u8,
    nonce: u64,
    expires_at_slot: u64,
    proof: &Vec<u8>,
) -> (r: Result<(), InstructionError>)
    requires
        old(ledger).wf(),
    ensures
        final(ledger).wf(),
        !old(ledger).has_policy(ctx.agent) || !old(ledger).has_meter(ctx.meter) ==> r == Err::<
            (),
            InstructionError,
        >(InstructionError::AccountNotInitialized) && *final(verifier) == *old(verifier),
        forall|i: int, j: int|
            #![trigger old(ledger).policies()[i], old(ledger).meters()[j]]
            0 <= i < old(ledger).policies().len() && old(ledger).policies()[i].agent_pubkey
                == ctx.agent && 0 <= j < old(ledger).meters().len() && old(ledger).meters()[j].key()
                == ctx.meter ==> {
                &&& r == authorize_outcome(
                    old(ledger).policies()[i],
                    old(ledger).meters()[j],
                    category,
                    old(verifier).accepts(proof@, amount, category, old(ledger).policies()[i].policy_hash@),
                    old(ledger).has_authorization(AuthKey { agent: ctx.agent, meter: ctx.meter, nonce }),
                )
                &&& (old(ledger).policies()[i].frozen || old(ledger).meters()[j].category != category)
                    ==> *final(verifier) == *old(verifier)
                &&& (!old(ledger).policies()[i].frozen && old(ledger).meters()[j].category == category)
                    ==> *final(verifier) == old(verifier).after_check(
                    proof@,
                    amount,
                    category,
                    old(ledger).policies()[i].policy_hash@,
                )
            },
        r is Ok ==> {
            &&& final(ledger).authorizations() == old(ledger).authorizations().push(
                issued(ctx.agent, ctx.meter, amount, category, nonce, expires_at_slot),
            )
            &&& final(ledger).policies() == old(ledger).policies()
            &&& final(ledger).meters() == old(ledger).meters()
            &&& final(ledger).events() == old(ledger).events()
        },
        r is Err ==> *final(ledger) == *old(ledger),
        forall|slot: u64| #[trigger] tickets_step(*old(ledger), *final(ledger), slot),
{
    let pi = match ledger.find_policy(ctx.agent) {
        Some(pi) => pi,
        None => return Err(InstructionError::AccountNotInitialized),
    };
    let mj = match ledger.find_meter(ctx.meter) {
        Some(mj) => mj,
        None => return Err(InstructionError::AccountNotInitialized),
    };
    proof {
        assert forall|i: int, j: int|
            0 <= i < old(ledger).policies().len() && old(ledger).policies()[i].agent_pubkey
                == ctx.agent && 0 <= j < old(ledger).meters().len() && old(ledger).meters()[j].key()
                == ctx.meter implies i == pi && j == mj by {
            if i < pi {
                assert(ledger.policies@[i].agent_pubkey != ledger.policies@[pi as int].agent_pubkey);
            } else if i > pi {
                assert(ledger.policies@[pi as int].agent_pubkey != ledger.policies@[i].agent_pubkey);
            }
            if j < mj {
                assert(ledger.meters@[j].key() != ledger.meters@[mj as int].key());
            } else if j > mj {
                assert(ledger.meters@[mj as int].key() != ledger.meters@[j].key());
            }
        }
    }
    let policy = &ledger.policies[pi];
    let meter = &ledger.meters[mj];
    if policy.frozen {
        return Err(InstructionError::Program(AgentBlinkPayError::PolicyFrozen));
    }
    if meter.category != category {
        return Err(InstructionError::Program(AgentBlinkPayError::CategoryMismatch));
    }
    if !verifier.verify(proof, amount, category, &policy.policy_hash) {
        return Err(InstructionError::Program(AgentBlinkPayError::InvalidProof));
    }
    let key = AuthKey { agent: ctx.agent, meter: ctx.meter, nonce };
    if ledger.find_authorization(key).is_some() {
        return Err(InstructionError::AccountAlreadyInUse);
    }
    let auth = Authorization {
        agent: ctx.agent,
        meter: ctx.meter,
        amount,
        category,
        nonce,
        expires_at_slot,
        used: false,
    };
    assert forall|k: int|
        0 <= k < old(ledger).authorizations@.len() implies old(ledger).authorizations@[k].key()
            != key by {
        assert(old(ledger).authorizations()[k] == old(ledger).authorizations@[k]);
    }
    ledger.authorizations.push(auth);
    Ok(())
}

/// Consumes the ticket at (agent, meter, nonce) at slot `current_slot`: it
/// must be unused and not expired. Marks it used, appends the settlement
/// event to the outbox and returns it.
pub fn record_meter_payment(
    ledger: &mut Ledger,
    ctx: &RecordPayment,
    nonce: u64,
    current_slot: u64,
) -> (r: Result<MeterPaid, InstructionError>)
    requires
        old(ledger).wf(),
    ensures
        final(ledger).wf(),
        !old(ledger).has_authorization(AuthKey { agent: ctx.agent, meter: ctx.meter, nonce })
            ==> r == Err::<MeterPaid, InstructionError>(InstructionError::AccountNotInitialized),
        forall|i: int|
            0 <= i < old(ledger).authorizations().len() && old(ledger).authorizations()[i].key()
                == (AuthKey { agent: ctx.agent, meter: ctx.meter, nonce }) ==> {
                &&& r == record_outcome(old(ledger).authorizations()[i], current_slot)
                &&& r is Ok ==> final(ledger).authorizations() == old(ledger).authorizations().update(
                    i,
                    old(ledger).authorizations()[i].consumed(),
                )
            },
        r is Ok ==> {
            &&& final(ledger).events() == old(ledger).events().push(r->Ok_0)
            &&& final(ledger).policies() == old(ledger).policies()
            &&& final(ledger).meters() == old(ledger).meters()
        },
        r is Err ==> *final(ledger) == *old(ledger),
        tickets_step(*old(ledger), *final(ledger), current_slot),
{
    let key = AuthKey { agent: ctx.agent, meter: ctx.meter, nonce };
    let i = match ledger.find_authorization(key) {
        Some(i) => i,
        None => return Err(InstructionError::AccountNotInitialized),
    };
    proof {
        assert forall|k: int|
            0 <= k < old(ledger).authorizations().len() && old(ledger).authorizations()[k].key()
                == key implies k == i by {
            if k < i {
                assert(ledger.authorizations@[k].key() != ledger.authorizations@[i as int].key());
            } else if k > i {
                assert(ledger.authorizations@[i as int].key() != ledger.authorizations@[k].key());
            }
        }
    }
    let mut auth = ledger.authorizations[i];
    if auth.used {
        return Err(InstructionError::Program(AgentBlinkPayError::AuthorizationUsed));
    }
    if current_slot > auth.expires_at_slot {
        return Err(InstructionError::Program(AgentBlinkPayError::AuthorizationExpired));
    }
    auth.used = true;
    ledger.authorizations[i] = auth;
    let event = MeterPaid {
        agent: auth.agent,
        meter: auth.meter,
        amount: auth.amount,
        category: auth.category,
        nonce: auth.nonce,
        slot: current_slot,
    };
    ledger.events.push(event);
    assert(forall|k: int|
        0 <= k < ledger.authorizations@.len() ==> ledger.authorizations@[k].key()
            == old(ledger).authorizations@[k].key());
    Ok(event)
}

} // verus!
