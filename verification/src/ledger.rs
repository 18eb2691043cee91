use vstd::prelude::*;
use crate::identity::{bytes_eq, Identity, MAX_IDENTITY_LEN};

verus! {

/// A ledger operation as read back from a block of the external ledger,
/// reduced to the values this service inspects. Accounts are the 32-byte
/// account identifiers the ledger derives from a principal and subaccount.
#[derive(Debug)]
pub enum LedgerOp {
    /// Tokens moved from one account to another.
    Transfer { from: Vec<u8>, to: Vec<u8>, amount_e8s: u64 },
    /// Any other operation kind (a mint, a burn, an approval, ...).
    Other,
}

/// What came back from asking the external ledger for one block.
#[derive(Debug)]
pub enum BlockQueryOutcome {
    /// The query call itself did not complete.
    QueryFailed(String),
    /// The ledger returned no block at the asked index.
    NotFound,
    /// The ledger returned the block, which may or may not carry an operation.
    Found(Option<LedgerOp>),
}

/// Why a claimed deposit was rejected. A rejection never mutates state.
#[derive(Clone, Copy, PartialEq, Eq, Structural, Debug)]
pub enum VerificationError {
    /// The block index has already credited a deposit.
    AlreadyCredited,
    /// A deposit against the same block index is awaiting its ledger query.
    AlreadyInFlight,
    /// The ledger query itself failed.
    LedgerQueryFailed,
    /// The ledger holds no block at that index.
    BlockNotFound,
    /// The block encodes no operation.
    OperationMissing,
    /// The block's operation is not a transfer.
    NotATransfer,
    /// The transfer's destination is not this service's account.
    WrongDestination,
    /// The transfer's source is not the claimed user's account.
    WrongSource,
    /// The transferred amount differs from the claimed amount.
    AmountMismatch,
}

/// The 32-byte account identifier the external ledger derives from the
/// principal bytes `id` and the all-zero (default) subaccount.
pub uninterp spec fn account_of(id: Seq<u8>) -> Seq<u8>;

/// Relies on ic_ledger_types::AccountIdentifier::new: a checksummed hash of
/// the owner's principal bytes and the subaccount alone, here fixed to
/// ic_ledger_types::DEFAULT_SUBACCOUNT (all zeroes), giving 32 bytes.
/// candid::Principal::from_slice accepts every slice of at most 29 bytes.
#[verifier::external_body]
pub(crate) fn derive_account(id: &Identity) -> (r: Vec<u8>)
    requires
        id@.len() <= MAX_IDENTITY_LEN,
    ensures
        r@ == account_of(id@),
        r@.len() == 32,
{
    let owner = candid::Principal::from_slice(&id.bytes);
    let account = ic_ledger_types::AccountIdentifier::new(
        &owner,
        &ic_ledger_types::DEFAULT_SUBACCOUNT,
    );
    let slice: &[u8] = account.as_ref();
    slice.to_vec()
}

/// The verdict on a claimed deposit `(user, amount_e8s)` given what the
/// ledger returned for the claimed block: the block must hold a transfer of
/// exactly `amount_e8s` from `user`'s default account to the service's own
/// default account (`self_id` being the service's principal bytes).
pub open spec fn spec_verdict(
    self_id: Seq<u8>,
    user: Seq<u8>,
    amount_e8s: u64,
    outcome: BlockQueryOutcome,
) -> Result<(), VerificationError> {
    match outcome {
        BlockQueryOutcome::QueryFailed(_) => Err(VerificationError::LedgerQueryFailed),
        BlockQueryOutcome::NotFound => Err(VerificationError::BlockNotFound),
        BlockQueryOutcome::Found(op) => match op {
            Option::None => Err(VerificationError::OperationMissing),
            Option::Some(LedgerOp::Other) => Err(VerificationError::NotATransfer),
            Option::Some(LedgerOp::Transfer { from, to, amount_e8s: moved }) => if to@
                != account_of(self_id) {
                Err(VerificationError::WrongDestination)
            } else if from@ != account_of(user) {
                Err(VerificationError::WrongSource)
            } else if moved != amount_e8s {
                Err(VerificationError::AmountMismatch)
            } else {
                Ok(())
            },
        },
    }
}

/// Validates what the ledger returned for a block against the claimed
/// deposit. Purely read-and-validate; no state is touched.
pub fn evaluate_outcome(
    self_id: &Identity,
    user: &Identity,
    amount_e8s: u64,
    outcome: &BlockQueryOutcome,
) -> (r: Result<(), VerificationError>)
    requires
        self_id@.len() <= MAX_IDENTITY_LEN,
        user@.len() <= MAX_IDENTITY_LEN,
    ensures
        r == spec_verdict(self_id@, user@, amount_e8s, *outcome),
{
    match outcome {
        BlockQueryOutcome::QueryFailed(_) => Err(VerificationError::LedgerQueryFailed),
        BlockQueryOutcome::NotFound => Err(VerificationError::BlockNotFound),
        BlockQueryOutcome::Found(op) => match op {
            Option::None => Err(VerificationError::OperationMissing),
            Option::Some(LedgerOp::Other) => Err(VerificationError::NotATransfer),
            Option::Some(LedgerOp::Transfer { from, to, amount_e8s: moved }) => {
                let expected_to = derive_account(self_id);
                let expected_from = derive_account(user);
                if !bytes_eq(to, &expected_to) {
                    Err(VerificationError::WrongDestination)
                } else if !bytes_eq(from, &expected_from) {
                    Err(VerificationError::WrongSource)
                } else if *moved != amount_e8s {
                    Err(VerificationError::AmountMismatch)
                } else {
                    Ok(())
                }
            },
        },
    }
}

} // verus!
