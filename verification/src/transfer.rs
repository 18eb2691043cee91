use vstd::prelude::*;
use crate::identity::{copy_bytes, Identity};

verus! {

/// The outcome a withdrawal reports: the new ledger block index on success,
/// or a human-readable reason.
#[derive(PartialEq, Debug)]
pub enum TransferResult {
    Completed(u64),
    Refused(String),
}

/// How an outbound ledger transfer call ended, as handed back by the
/// surrounding host code: the ledger appended a new block, the ledger
/// rejected the transfer (with its reason), or the call itself failed.
#[derive(Debug)]
pub enum TransferEvent {
    Succeeded(u64),
    Rejected(String),
    Failed(String),
}

/// Why a custodian transfer was refused.
#[derive(PartialEq, Debug)]
pub enum TransferError {
    /// The caller is not on the allow-list.
    NotAuthorized,
    /// The ledger rejected the transfer, for this reason.
    LedgerRejected(String),
    /// The transfer call itself did not complete.
    CallFailed(String),
}

/// A custodian transfer order: a privileged, balance-independent outbound
/// payment to `to_principal`'s account under `to_subaccount` (the all-zero
/// default selector when absent).
#[derive(Debug)]
pub struct TransferArgs {
    pub to_principal: Identity,
    pub to_subaccount: Option<Vec<u8>>,
    pub amount_e8s: u64,
}

/// The all-zero default subaccount selector, 32 bytes long.
pub open spec fn default_subaccount() -> Seq<u8> {
    Seq::new(32, |i: int| 0u8)
}

impl TransferArgs {
    /// The subaccount the order targets: the given one, else the default.
    pub fn effective_subaccount(&self) -> (r: Vec<u8>)
        ensures
            r@ == match self.to_subaccount {
                Option::Some(s) => s@,
                Option::None => default_subaccount(),
            },
    {
        match &self.to_subaccount {
            Some(s) => copy_bytes(s),
            None => {
                let mut z: Vec<u8> = Vec::new();
                let mut i: usize = 0;
                while i < 32
                    invariant
                        i <= 32,
                        z@.len() == i,
                        forall|k: int| 0 <= k < i ==> z@[k] == 0u8,
                    decreases 32 - i,
                {
                    z.push(0u8);
                    i = i + 1;
                }
                proof {
                    assert(z@ =~= default_subaccount());
                }
                z
            },
        }
    }
}

} // verus!
