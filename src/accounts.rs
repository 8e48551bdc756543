use vstd::prelude::*;
use crate::keys::{AuthKey, MeterKey, Pubkey};

verus! {

/// Longest merchant wallet reference a meter can hold, in bytes.
pub const MAX_WALLET_ID_LEN: usize = 64;

/// An agent's spending policy: a commitment to its private rule plus the
/// public category, per-transaction cap and freeze switch.
#[derive(Clone, Copy, Debug)]
pub struct AgentPolicy {
    pub agent_pubkey: Pubkey,
    pub policy_hash: [u8; 32],
    pub allowed_category: u8,
    pub max_per_tx: u64,
    pub frozen: bool,
}

/// A paywalled endpoint with its price, category and merchant wallet
/// reference (`merchant_wallet_id_len` bytes, zero padding after them).
#[derive(Clone, Copy, Debug)]
pub struct Meter {
    pub authority: Pubkey,
    pub meter_id: Pubkey,
    pub price_per_call: u64,
    pub category: u8,
    pub merchant_wallet_id: [u8; 64],
    pub merchant_wallet_id_len: u8,
    pub requires_zk: bool,
}

/// A one-time payment ticket, valid up to and including `expires_at_slot`.
#[derive(Clone, Copy, Debug)]
pub struct Authorization {
    pub agent: Pubkey,
    pub meter: MeterKey,
    pub amount: u64,
    pub category: u8,
    pub nonce: u64,
    pub expires_at_slot: u64,
    pub used: bool,
}

/// The settlement event emitted when a ticket is consumed.
#[derive(Clone, Copy, Debug, PartialEq, Eq, Structural)]
pub struct MeterPaid {
    pub agent: Pubkey,
    pub meter: MeterKey,
    pub amount: u64,
    pub category: u8,
    pub nonce: u64,
    pub slot: u64,
}

impl Meter {
    pub open spec fn key(self) -> MeterKey {
        MeterKey { authority: self.authority, meter_id: self.meter_id }
    }

    /// The wallet reference as stored: the first `merchant_wallet_id_len` bytes.
    pub open spec fn wallet_id_view(self) -> Seq<u8> {
        self.merchant_wallet_id@.subrange(0, self.merchant_wallet_id_len as int)
    }

    pub open spec fn wf(self) -> bool {
        &&& self.merchant_wallet_id_len <= 64
        &&& forall|i: int|
            self.merchant_wallet_id_len <= i < 64 ==> self.merchant_wallet_id@[i] == 0u8
    }

    /// The merchant wallet reference, exactly the bytes it was created with.
    pub fn merchant_wallet_id(&self) -> (r: Vec<u8>)
        requires
            self.wf(),
        ensures
            r@ == self.wallet_id_view(),
    {
        let mut r: Vec<u8> = Vec::new();
        let n = self.merchant_wallet_id_len as usize;
        let mut i: usize = 0;
        while i < n
            invariant
                n == self.merchant_wallet_id_len,
                n <= 64,
                i <= n,
                r@ == self.merchant_wallet_id@.subrange(0, i as int),
            decreases n - i,
        {
            r.push(self.merchant_wallet_id[i]);
            i = i + 1;
        }
        r
    }
}

impl Authorization {
    pub open spec fn key(self) -> AuthKey {
        AuthKey { agent: self.agent, meter: self.meter, nonce: self.nonce }
    }

    /// The same ticket, consumed.
    pub open spec fn consumed(self) -> Authorization {
        Authorization { used: true, ..self }
    }

    /// Whether a record at slot `now` would consume this ticket.
    pub open spec fn redeemable(self, now: u64) -> bool {
        !self.used && now <= self.expires_at_slot
    }
}

} // verus!
