use vstd::prelude::*;

verus! {

/// A 256-bit account identity, held as four little-endian 64-bit words.
#[derive(Clone, Copy, Debug, PartialEq, Eq, Structural)]
pub struct Pubkey {
    pub w0: u64,
    pub w1: u64,
    pub w2: u64,
    pub w3: u64,
}

impl Pubkey {
    pub fn new(w0: u64, w1: u64, w2: u64, w3: u64) -> (r: Pubkey)
        ensures
            r == (Pubkey { w0, w1, w2, w3 }),
    {
        Pubkey { w0, w1, w2, w3 }
    }
}

/// Where a meter lives: the authority that registered it and the endpoint
/// identifier it was registered under.
#[derive(Clone, Copy, Debug, PartialEq, Eq, Structural)]
pub struct MeterKey {
    pub authority: Pubkey,
    pub meter_id: Pubkey,
}

/// Where an authorization lives: one ticket per agent, meter and nonce.
#[derive(Clone, Copy, Debug, PartialEq, Eq, Structural)]
pub struct AuthKey {
    pub agent: Pubkey,
    pub meter: MeterKey,
    pub nonce: u64,
}

} // verus!
