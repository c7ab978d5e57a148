//! Nova rewards: the ledger of Nova points, staking with time-based yield,
//! cross-asset swaps and the emergency recovery procedures of the Nova
//! rewards contract, as a verified state machine.

pub mod byte_map;
pub mod contract;
pub mod error;
pub mod laws;
pub mod payout;
pub mod state;
pub mod types;
