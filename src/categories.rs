use vstd::prelude::*;

verus! {

/// AI and machine-learning inference services.
pub const AI_API: u8 = 1;

/// Data feeds and market data.
pub const DATA_FEED: u8 = 2;

/// General tools and utilities.
pub const TOOL: u8 = 3;

/// Game actions.
pub const CATAN_ACTION: u8 = 4;

} // verus!
