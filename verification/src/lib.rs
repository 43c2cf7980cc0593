//! Accounting and escrow core of a decentralized exchange.
//!
//! The crate keeps a ledger of asset balances held by technical accounts and
//! runs hash-locked atomic swaps on top of it: funds are reserved when a swap
//! is opened and are later either claimed by the counterparty or returned to
//! where they came from.

pub mod action;
pub mod balances;
pub mod conservation;
pub mod error;
pub mod event;
pub mod ledger;
pub mod liquidity;
pub mod module;
pub mod primitives;
pub mod registry;
pub mod state;

pub use crate::action::{SwapAction, TransferAction, TRANSFER_WEIGHT};
pub use crate::error::Error;
pub use crate::event::Event;
pub use crate::ledger::Ledger;
pub use crate::module::Module;
pub use crate::primitives::{
    AccountId, AssetId, Balance, BlockNumber, DexInfo, HashedProof, TechnicalId, TradingPair,
    Weight,
};
pub use crate::registry::{same_proof, PendingSwap, SwapRegistry};
