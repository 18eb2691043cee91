//! Balance-custody service around an external append-only token ledger.
//!
//! Users deposit by presenting proof of an on-ledger transfer; the service
//! credits an internal balance only after validating that proof, lets users
//! withdraw through a real ledger transfer, maintains three reward pots and
//! an append-only audit log, and persists its whole state across upgrades
//! with a backward-compatible fallback for the previous snapshot schema.

pub mod balances;
pub mod bank;
pub mod blocks;
pub mod identity;
pub mod ledger;
pub mod logs;
pub mod migrate;
pub mod transfer;

pub use bank::{Bank, GOLD_DEPOSIT_BONUS_E8S, GOLD_RESEED_E8S, HIGH_SCORE_DEPOSIT_BONUS_E8S,
    SILVER_DEPOSIT_BONUS_E8S, SILVER_RESEED_E8S};
pub use identity::Identity;
pub use migrate::{LegacySnapshot, RestoreOutcome, Snapshot};
pub use ledger::{BlockQueryOutcome, LedgerOp, VerificationError};
pub use logs::{Action, LogEntry};
pub use transfer::{TransferArgs, TransferError, TransferEvent, TransferResult};
