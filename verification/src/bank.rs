use vstd::prelude::*;
use crate::balances::{copy_balances, entry_views, get_balance, lookup, set_balance};
use crate::blocks::{contains_u64, copy_u64s, dedup_u64, lemma_push_contains, lemma_push_no_dup,
    without_u64};
use crate::migrate::{LegacySnapshot, RestoreOutcome, Snapshot};
use crate::identity::{Identity, MAX_IDENTITY_LEN};
use crate::ledger::{evaluate_outcome, spec_verdict, BlockQueryOutcome, LedgerOp,
    VerificationError};
use crate::logs::{copy_logs, filter_logs, lemma_log_views_push, log_views, logs_for, Action,
    LogData, LogEntry};
use crate::transfer::{TransferArgs, TransferError, TransferEvent, TransferResult};

verus! {

/// Added to the silver pot by every successful deposit.
pub const SILVER_DEPOSIT_BONUS_E8S: u64 = 1_500_000;

/// Added to the gold pot by every successful deposit.
pub const GOLD_DEPOSIT_BONUS_E8S: u64 = 2_000_000;

/// Added to the high-score pot by every successful deposit.
pub const HIGH_SCORE_DEPOSIT_BONUS_E8S: u64 = 1_000_000;

/// The amount a privileged reset re-seeds the silver pot to.
pub const SILVER_RESEED_E8S: u64 = 25_000_000;

/// The amount a privileged reset re-seeds the gold pot to.
pub const GOLD_RESEED_E8S: u64 = 250_000_000;

/// The process-wide state of the custody service: the balance table, the
/// dedup guard over ledger blocks (credited and in-flight), the append-only
/// audit log, the three reward pots, and the configuration supplied at
/// initialization (the allow-list and the service's own identity).
pub struct Bank {
    balances: Vec<(Identity, u64)>,
    credited_blocks: Vec<u64>,
    in_flight_blocks: Vec<u64>,
    logs: Vec<LogEntry>,
    silver_pot_e8s: u64,
    gold_pot_e8s: u64,
    high_score_pot_e8s: u64,
    allowed: Vec<Identity>,
    self_identity: Identity,
}

impl Bank {
    /// The balance recorded for identity `id` (0 when absent).
    pub closed spec fn balance_of(self, id: Seq<u8>) -> u64 {
        lookup(entry_views(self.balances@), id)
    }

    /// The block indices already used to credit a deposit.
    pub closed spec fn credited_view(self) -> Seq<u64> {
        self.credited_blocks@
    }

    /// Whether `b` has already credited a deposit.
    pub open spec fn is_credited(self, b: u64) -> bool {
        self.credited_view().contains(b)
    }

    /// The block indices reserved by deposits whose ledger query is pending.
    pub closed spec fn in_flight_view(self) -> Seq<u64> {
        self.in_flight_blocks@
    }

    /// Whether a deposit against `b` is awaiting its ledger query.
    pub open spec fn is_in_flight(self, b: u64) -> bool {
        self.in_flight_view().contains(b)
    }

    /// The audit log, oldest first.
    pub closed spec fn logs_view(self) -> Seq<LogData> {
        log_views(self.logs@)
    }

    pub closed spec fn silver(self) -> u64 {
        self.silver_pot_e8s
    }

    pub closed spec fn gold(self) -> u64 {
        self.gold_pot_e8s
    }

    pub closed spec fn high_score(self) -> u64 {
        self.high_score_pot_e8s
    }

    /// The byte forms of the identities allowed to run privileged operations.
    pub closed spec fn allowed_view(self) -> Seq<Seq<u8>> {
        self.allowed@.map_values(|a: Identity| a@)
    }

    /// Whether `id` may run privileged operations.
    pub open spec fn allowed_spec(self, id: Seq<u8>) -> bool {
        self.allowed_view().contains(id)
    }

    /// This service's own identity (the required destination of deposits).
    pub closed spec fn self_id(self) -> Seq<u8> {
        self.self_identity@
    }

    /// Well-formedness: each block index is recorded at most once, never
    /// both as credited and as in-flight, and the service identity fits a
    /// principal.
    pub closed spec fn wf(self) -> bool {
        &&& self.credited_blocks@.no_duplicates()
        &&& self.in_flight_blocks@.no_duplicates()
        &&& forall|b: u64|
            !(self.credited_blocks@.contains(b) && self.in_flight_blocks@.contains(b))
        &&& self.self_identity.wf()
    }
}

/// `b` carries the same configuration (allow-list, own identity) as `a`.
pub open spec fn same_config(a: Bank, b: Bank) -> bool {
    b.allowed_view() == a.allowed_view() && b.self_id() == a.self_id()
}

/// `b` records the same balance as `a` for every identity.
pub open spec fn same_balances(a: Bank, b: Bank) -> bool {
    forall|id: Seq<u8>| b.balance_of(id) == a.balance_of(id)
}

/// `b` records the same credited and in-flight blocks as `a`.
pub open spec fn same_blocks(a: Bank, b: Bank) -> bool {
    b.credited_view() == a.credited_view() && b.in_flight_view() == a.in_flight_view()
}

/// `b` holds the same three pots as `a`.
pub open spec fn same_pots(a: Bank, b: Bank) -> bool {
    b.silver() == a.silver() && b.gold() == a.gold() && b.high_score() == a.high_score()
}

/// Whether the ledger outcome shows a transfer of exactly `amount_e8s` — a
/// necessary condition for a deposit claiming that amount to commit.
pub open spec fn claims_transfer_of(outcome: BlockQueryOutcome, amount_e8s: u64) -> bool {
    match outcome {
        BlockQueryOutcome::Found(op) => match op {
            Option::Some(LedgerOp::Transfer { from: _, to: _, amount_e8s: moved }) => moved
                == amount_e8s,
            _ => false,
        },
        _ => false,
    }
}

/// When the ledger outcome could commit the claimed deposit, the credited
/// balance and the three pot bonuses must not overflow their counters.
pub open spec fn deposit_fits(
    b: Bank,
    user: Seq<u8>,
    amount_e8s: u64,
    outcome: BlockQueryOutcome,
) -> bool {
    claims_transfer_of(outcome, amount_e8s) ==> {
        &&& b.balance_of(user) + amount_e8s <= u64::MAX
        &&& b.silver() + SILVER_DEPOSIT_BONUS_E8S <= u64::MAX
        &&& b.gold() + GOLD_DEPOSIT_BONUS_E8S <= u64::MAX
        &&& b.high_score() + HIGH_SCORE_DEPOSIT_BONUS_E8S <= u64::MAX
    }
}

impl Bank {
    /// An empty bank under the given configuration: no balances, no
    /// credited or in-flight blocks, no logs, all pots zero.
    pub fn new(allowed: Vec<Identity>, self_identity: Identity) -> (r: Bank)
        requires
            self_identity.wf(),
        ensures
            r.wf(),
            forall|id: Seq<u8>| r.balance_of(id) == 0,
            r.credited_view() == Seq::<u64>::empty(),
            r.in_flight_view() == Seq::<u64>::empty(),
            r.logs_view() == Seq::<LogData>::empty(),
            r.silver() == 0 && r.gold() == 0 && r.high_score() == 0,
            r.allowed_view() == allowed@.map_values(|a: Identity| a@),
            r.self_id() == self_identity@,
    {
        let r = Bank {
            balances: Vec::new(),
            credited_blocks: Vec::new(),
            in_flight_blocks: Vec::new(),
            logs: Vec::new(),
            silver_pot_e8s: 0,
            gold_pot_e8s: 0,
            high_score_pot_e8s: 0,
            allowed,
            self_identity,
        };
        proof {
            assert(entry_views(r.balances@) =~= Seq::<(Seq<u8>, u64)>::empty());
            assert(r.credited_blocks@ =~= Seq::<u64>::empty());
            assert(r.in_flight_blocks@ =~= Seq::<u64>::empty());
            assert(log_views(r.logs@) =~= Seq::<LogData>::empty());
        }
        r
    }

    /// Whether `caller` is on the allow-list for privileged operations: a
    /// pure membership test against the configured list.
    pub fn is_allowed(&self, caller: &Identity) -> (r: bool)
        ensures
            r == self.allowed_spec(caller@),
    {
        let mut i: usize = 0;
        while i < self.allowed.len()
            invariant
                i <= self.allowed@.len(),
                forall|k: int| 0 <= k < i ==> self.allowed@[k]@ != caller@,
            decreases self.allowed@.len() - i,
        {
            if self.allowed[i].same_as(caller) {
                proof {
                    assert(self.allowed_view()[i as int] == caller@);
                }
                return true;
            }
            i = i + 1;
        }
        proof {
            if self.allowed_view().contains(caller@) {
                let k = choose|k: int|
                    0 <= k < self.allowed_view().len() && self.allowed_view()[k] == caller@;
                assert(self.allowed@[k]@ == caller@);
            }
        }
        false
    }

    /// Appends one audit record; touches nothing else.
    fn push_log(
        &mut self,
        caller: &Identity,
        action: Action,
        amount_e8s: u64,
        block_index: Option<u64>,
        now: u64,
    )
        ensures
            final(self).logs_view() == old(self).logs_view().push(
                (now, caller@, action, amount_e8s, block_index),
            ),
            final(self).balances == old(self).balances,
            final(self).credited_blocks == old(self).credited_blocks,
            final(self).in_flight_blocks == old(self).in_flight_blocks,
            final(self).silver_pot_e8s == old(self).silver_pot_e8s,
            final(self).gold_pot_e8s == old(self).gold_pot_e8s,
            final(self).high_score_pot_e8s == old(self).high_score_pot_e8s,
            final(self).allowed == old(self).allowed,
            final(self).self_identity == old(self).self_identity,
    {
        let entry = LogEntry {
            timestamp: now,
            caller: caller.duplicate(),
            action,
            amount_e8s,
            block_index,
        };
        proof {
            lemma_log_views_push(self.logs@, entry);
        }
        self.logs.push(entry);
    }

    /// The balance recorded for `user` (0 when absent).
    pub fn get_balance_of(&self, user: &Identity) -> (r: u64)
        ensures
            r == self.balance_of(user@),
    {
        get_balance(&self.balances, user)
    }

    pub fn get_silver_pot(&self) -> (r: u64)
        ensures
            r == self.silver(),
    {
        self.silver_pot_e8s
    }

    pub fn get_gold_pot(&self) -> (r: u64)
        ensures
            r == self.gold(),
    {
        self.gold_pot_e8s
    }

    pub fn get_high_score_pot(&self) -> (r: u64)
        ensures
            r == self.high_score(),
    {
        self.high_score_pot_e8s
    }

    /// The silver and gold pots together.
    pub fn get_total_pot(&self) -> (r: u64)
        requires
            self.silver() + self.gold() <= u64::MAX,
        ensures
            r == self.silver() + self.gold(),
    {
        self.silver_pot_e8s + self.gold_pot_e8s
    }

    /// Every audit record, oldest first.
    pub fn get_logs(&self) -> (r: Vec<LogEntry>)
        ensures
            log_views(r@) == self.logs_view(),
    {
        copy_logs(&self.logs)
    }

    /// The audit records made by `user`, oldest first.
    pub fn get_user_logs(&self, user: &Identity) -> (r: Vec<LogEntry>)
        ensures
            log_views(r@) == logs_for(self.logs_view(), user@),
    {
        filter_logs(&self.logs, user)
    }

    /// Privileged: adds `amount_e8s` to the silver (or gold) pot and logs
    /// it. Fails closed, changing nothing, when the caller is not on the
    /// allow-list.
    pub fn pot_add(&mut self, caller: &Identity, amount_e8s: u64, silver: bool, now: u64) -> (r:
        bool)
        requires
            old(self).wf(),
            old(self).allowed_spec(caller@) && silver ==> old(self).silver() + amount_e8s
                <= u64::MAX,
            old(self).allowed_spec(caller@) && !silver ==> old(self).gold() + amount_e8s
                <= u64::MAX,
        ensures
            final(self).wf(),
            r == old(self).allowed_spec(caller@),
            !r ==> *final(self) == *old(self),
            r ==> final(self).silver() == if silver {
                (old(self).silver() + amount_e8s) as u64
            } else {
                old(self).silver()
            },
            r ==> final(self).gold() == if silver {
                old(self).gold()
            } else {
                (old(self).gold() + amount_e8s) as u64
            },
            r ==> final(self).high_score() == old(self).high_score(),
            r ==> same_balances(*old(self), *final(self)) && same_blocks(*old(self), *final(self))
                && same_config(*old(self), *final(self)),
            r ==> final(self).logs_view() == old(self).logs_view().push(
                (
                    now,
                    caller@,
                    if silver {
                        Action::AddSilver
                    } else {
                        Action::AddGold
                    },
                    amount_e8s,
                    Option::None::<u64>,
                ),
            ),
    {
        if !self.is_allowed(caller) {
            return false;
        }
        if silver {
            self.silver_pot_e8s = self.silver_pot_e8s + amount_e8s;
        } else {
            self.gold_pot_e8s = self.gold_pot_e8s + amount_e8s;
        }
        let action = if silver {
            Action::AddSilver
        } else {
            Action::AddGold
        };
        self.push_log(caller, action, amount_e8s, None, now);
        true
    }

    /// Privileged: re-seeds the silver (or gold) pot to `amount_e8s` and
    /// logs it. Fails closed, changing nothing, when the caller is not on
    /// the allow-list.
    pub fn pot_reset(&mut self, caller: &Identity, amount_e8s: u64, silver: bool, now: u64) -> (r:
        bool)
        requires
            old(self).wf(),
        ensures
            final(self).wf(),
            r == old(self).allowed_spec(caller@),
            !r ==> *final(self) == *old(self),
            r ==> final(self).silver() == if silver {
                amount_e8s
            } else {
                old(self).silver()
            },
            r ==> final(self).gold() == if silver {
                old(self).gold()
            } else {
                amount_e8s
            },
            r ==> final(self).high_score() == old(self).high_score(),
            r ==> same_balances(*old(self), *final(self)) && same_blocks(*old(self), *final(self))
                && same_config(*old(self), *final(self)),
            r ==> final(self).logs_view() == old(self).logs_view().push(
                (
                    now,
                    caller@,
                    if silver {
                        Action::ResetSilver
                    } else {
                        Action::ResetGold
                    },
                    amount_e8s,
                    Option::None::<u64>,
                ),
            ),
    {
        if !self.is_allowed(caller) {
            return false;
        }
        if silver {
            self.silver_pot_e8s = amount_e8s;
        } else {
            self.gold_pot_e8s = amount_e8s;
        }
        let action = if silver {
            Action::ResetSilver
        } else {
            Action::ResetGold
        };
        self.push_log(caller, action, amount_e8s, None, now);
        true
    }

    /// Privileged: adds `amount_e8s` to the silver pot.
    pub fn add_to_silver_pot(&mut self, caller: &Identity, amount_e8s: u64, now: u64) -> (r: bool)
        requires
            old(self).wf(),
            old(self).allowed_spec(caller@) ==> old(self).silver() + amount_e8s <= u64::MAX,
        ensures
            final(self).wf(),
            r == old(self).allowed_spec(caller@),
            !r ==> *final(self) == *old(self),
            r ==> final(self).silver() == old(self).silver() + amount_e8s,
            r ==> final(self).gold() == old(self).gold() && final(self).high_score() == old(
                self,
            ).high_score(),
            r ==> same_balances(*old(self), *final(self)) && same_blocks(*old(self), *final(self))
                && same_config(*old(self), *final(self)),
            r ==> final(self).logs_view() == old(self).logs_view().push(
                (now, caller@, Action::AddSilver, amount_e8s, Option::None::<u64>),
            ),
    {
        self.pot_add(caller, amount_e8s, true, now)
    }

    /// Privileged: adds `amount_e8s` to the gold pot.
    pub fn add_to_gold_pot(&mut self, caller: &Identity, amount_e8s: u64, now: u64) -> (r: bool)
        requires
            old(self).wf(),
            old(self).allowed_spec(caller@) ==> old(self).gold() + amount_e8s <= u64::MAX,
        ensures
            final(self).wf(),
            r == old(self).allowed_spec(caller@),
            !r ==> *final(self) == *old(self),
            r ==> final(self).gold() == old(self).gold() + amount_e8s,
            r ==> final(self).silver() == old(self).silver() && final(self).high_score() == old(
                self,
            ).high_score(),
            r ==> same_balances(*old(self), *final(self)) && same_blocks(*old(self), *final(self))
                && same_config(*old(self), *final(self)),
            r ==> final(self).logs_view() == old(self).logs_view().push(
                (now, caller@, Action::AddGold, amount_e8s, Option::None::<u64>),
            ),
    {
        self.pot_add(caller, amount_e8s, false, now)
    }

    /// Privileged: re-seeds the silver pot to its fixed re-seed amount.
    pub fn reset_silver_pot(&mut self, caller: &Identity, now: u64) -> (r: bool)
        requires
            old(self).wf(),
        ensures
            final(self).wf(),
            r == old(self).allowed_spec(caller@),
            !r ==> *final(self) == *old(self),
            r ==> final(self).silver() == SILVER_RESEED_E8S,
            r ==> final(self).gold() == old(self).gold() && final(self).high_score() == old(
                self,
            ).high_score(),
            r ==> same_balances(*old(self), *final(self)) && same_blocks(*old(self), *final(self))
                && same_config(*old(self), *final(self)),
            r ==> final(self).logs_view() == old(self).logs_view().push(
                (now, caller@, Action::ResetSilver, SILVER_RESEED_E8S, Option::None::<u64>),
            ),
    {
        self.pot_reset(caller, SILVER_RESEED_E8S, true, now)
    }

    /// Privileged: re-seeds the gold pot to its fixed re-seed amount.
    pub fn reset_gold_pot(&mut self, caller: &Identity, now: u64) -> (r: bool)
        requires
            old(self).wf(),
        ensures
            final(self).wf(),
            r == old(self).allowed_spec(caller@),
            !r ==> *final(self) == *old(self),
            r ==> final(self).gold() == GOLD_RESEED_E8S,
            r ==> final(self).silver() == old(self).silver() && final(self).high_score() == old(
                self,
            ).high_score(),
            r ==> same_balances(*old(self), *final(self)) && same_blocks(*old(self), *final(self))
                && same_config(*old(self), *final(self)),
            r ==> final(self).logs_view() == old(self).logs_view().push(
                (now, caller@, Action::ResetGold, GOLD_RESEED_E8S, Option::None::<u64>),
            ),
    {
        self.pot_reset(caller, GOLD_RESEED_E8S, false, now)
    }

    /// Privileged: adds `amount_e8s` to the high-score pot and logs it.
    /// Fails closed, changing nothing, when the caller is not allow-listed.
    pub fn add_to_high_score_pot(&mut self, caller: &Identity, amount_e8s: u64, now: u64) -> (r:
        bool)
        requires
            old(self).wf(),
            old(self).allowed_spec(caller@) ==> old(self).high_score() + amount_e8s <= u64::MAX,
        ensures
            final(self).wf(),
            r == old(self).allowed_spec(caller@),
            !r ==> *final(self) == *old(self),
            r ==> final(self).high_score() == old(self).high_score() + amount_e8s,
            r ==> final(self).silver() == old(self).silver() && final(self).gold() == old(
                self,
            ).gold(),
            r ==> same_balances(*old(self), *final(self)) && same_blocks(*old(self), *final(self))
                && same_config(*old(self), *final(self)),
            r ==> final(self).logs_view() == old(self).logs_view().push(
                (now, caller@, Action::AddHighScorePot, amount_e8s, Option::None::<u64>),
            ),
    {
        if !self.is_allowed(caller) {
            return false;
        }
        self.high_score_pot_e8s = self.high_score_pot_e8s + amount_e8s;
        self.push_log(caller, Action::AddHighScorePot, amount_e8s, None, now);
        true
    }

    /// Adds `amount_e8s` to `user`'s balance; touches nothing else.
    fn credit_balance(&mut self, user: &Identity, amount_e8s: u64)
        requires
            old(self).balance_of(user@) + amount_e8s <= u64::MAX,
        ensures
            final(self).balance_of(user@) == old(self).balance_of(user@) + amount_e8s,
            forall|o: Seq<u8>|
                o != user@ ==> final(self).balance_of(o) == old(self).balance_of(o),
            final(self).credited_blocks == old(self).credited_blocks,
            final(self).in_flight_blocks == old(self).in_flight_blocks,
            final(self).logs == old(self).logs,
            final(self).silver_pot_e8s == old(self).silver_pot_e8s,
            final(self).gold_pot_e8s == old(self).gold_pot_e8s,
            final(self).high_score_pot_e8s == old(self).high_score_pot_e8s,
            final(self).allowed == old(self).allowed,
            final(self).self_identity == old(self).self_identity,
    {
        let current = get_balance(&self.balances, user);
        let updated = current + amount_e8s;
        set_balance(&mut self.balances, user, updated);
    }

    /// Takes `amount_e8s` from `user`'s balance; touches nothing else.
    fn debit_balance(&mut self, user: &Identity, amount_e8s: u64)
        requires
            amount_e8s <= old(self).balance_of(user@),
        ensures
            final(self).balance_of(user@) == old(self).balance_of(user@) - amount_e8s,
            forall|o: Seq<u8>|
                o != user@ ==> final(self).balance_of(o) == old(self).balance_of(o),
            final(self).credited_blocks == old(self).credited_blocks,
            final(self).in_flight_blocks == old(self).in_flight_blocks,
            final(self).logs == old(self).logs,
            final(self).silver_pot_e8s == old(self).silver_pot_e8s,
            final(self).gold_pot_e8s == old(self).gold_pot_e8s,
            final(self).high_score_pot_e8s == old(self).high_score_pot_e8s,
            final(self).allowed == old(self).allowed,
            final(self).self_identity == old(self).self_identity,
    {
        let current = get_balance(&self.balances, user);
        let updated = current - amount_e8s;
        set_balance(&mut self.balances, user, updated);
    }

    /// Step one of recording a deposit, taken synchronously before the
    /// ledger query: rejects a block index that has already credited a
    /// deposit, or that a concurrent deposit holds in flight, and otherwise
    /// reserves the index so that no concurrent claim of the same block can
    /// pass while the query is pending.
    pub fn begin_deposit(&mut self, block_index: u64) -> (r: Result<(), VerificationError>)
        requires
            old(self).wf(),
        ensures
            final(self).wf(),
            old(self).is_credited(block_index) ==> r == Err::<(), VerificationError>(
                VerificationError::AlreadyCredited,
            ) && *final(self) == *old(self),
            !old(self).is_credited(block_index) && old(self).is_in_flight(block_index) ==> r
                == Err::<(), VerificationError>(VerificationError::AlreadyInFlight) && *final(self)
                == *old(self),
            !old(self).is_credited(block_index) && !old(self).is_in_flight(block_index) ==> {
                &&& r == Ok::<(), VerificationError>(())
                &&& final(self).in_flight_view() == old(self).in_flight_view().push(block_index)
                &&& final(self).credited_view() == old(self).credited_view()
                &&& same_balances(*old(self), *final(self))
                &&& final(self).logs_view() == old(self).logs_view()
                &&& same_pots(*old(self), *final(self))
                &&& same_config(*old(self), *final(self))
            },
    {
        if contains_u64(&self.credited_blocks, block_index) {
            return Err(VerificationError::AlreadyCredited);
        }
        if contains_u64(&self.in_flight_blocks, block_index) {
            return Err(VerificationError::AlreadyInFlight);
        }
        proof {
            lemma_push_no_dup(self.in_flight_blocks@, block_index);
        }
        let ghost f0 = self.in_flight_blocks@;
        self.in_flight_blocks.push(block_index);
        proof {
            assert forall|b: u64|
                !(self.credited_blocks@.contains(b) && self.in_flight_blocks@.contains(b)) by {
                lemma_push_contains(f0, block_index, b);
            }
        }
        Ok(())
    }

    /// The full read-and-validate check for a claimed deposit, given what
    /// the ledger returned for the claimed block: rejects a block that has
    /// already credited a deposit, then holds the block's contents against
    /// the claim. Performs no state mutation.
    pub fn verify_deposit(
        &self,
        user: &Identity,
        amount_e8s: u64,
        block_index: u64,
        outcome: &BlockQueryOutcome,
    ) -> (r: Result<(), VerificationError>)
        requires
            self.wf(),
            user@.len() <= MAX_IDENTITY_LEN,
        ensures
            r == if self.is_credited(block_index) {
                Err::<(), VerificationError>(VerificationError::AlreadyCredited)
            } else {
                spec_verdict(self.self_id(), user@, amount_e8s, *outcome)
            },
    {
        if contains_u64(&self.credited_blocks, block_index) {
            return Err(VerificationError::AlreadyCredited);
        }
        evaluate_outcome(&self.self_identity, user, amount_e8s, outcome)
    }

    /// Step two of recording a deposit, taken once the ledger query has
    /// returned: validates the outcome and, on success, in one indivisible
    /// state transition credits `user` with the amount, marks the block
    /// credited, grants the three fixed pot bonuses and appends the four
    /// audit records. On any rejection only the reservation is released.
    /// The boolean does not say why a deposit was rejected (a limitation
    /// kept from the operation surface; `verify_deposit` shows the reason).
    pub fn finish_deposit(
        &mut self,
        caller: &Identity,
        user: &Identity,
        amount_e8s: u64,
        block_index: u64,
        outcome: &BlockQueryOutcome,
        now: u64,
    ) -> (r: bool)
        requires
            old(self).wf(),
            user@.len() <= MAX_IDENTITY_LEN,
            old(self).is_in_flight(block_index),
            deposit_fits(*old(self), user@, amount_e8s, *outcome),
        ensures
            final(self).wf(),
            r == (spec_verdict(old(self).self_id(), user@, amount_e8s, *outcome) is Ok),
            !r ==> {
                &&& same_balances(*old(self), *final(self))
                &&& final(self).credited_view() == old(self).credited_view()
                &&& forall|b: u64|
                    final(self).is_in_flight(b) == (old(self).is_in_flight(b) && b != block_index)
                &&& final(self).logs_view() == old(self).logs_view()
                &&& same_pots(*old(self), *final(self))
                &&& same_config(*old(self), *final(self))
            },
            r ==> {
                &&& final(self).balance_of(user@) == old(self).balance_of(user@) + amount_e8s
                &&& forall|o: Seq<u8>|
                    o != user@ ==> final(self).balance_of(o) == old(self).balance_of(o)
                &&& forall|b: u64|
                    final(self).is_credited(b) == (old(self).is_credited(b) || b == block_index)
                &&& forall|b: u64|
                    final(self).is_in_flight(b) == (old(self).is_in_flight(b) && b != block_index)
                &&& final(self).silver() == old(self).silver() + SILVER_DEPOSIT_BONUS_E8S
                &&& final(self).gold() == old(self).gold() + GOLD_DEPOSIT_BONUS_E8S
                &&& final(self).high_score() == old(self).high_score()
                    + HIGH_SCORE_DEPOSIT_BONUS_E8S
                &&& final(self).logs_view() == old(self).logs_view().push(
                    (now, caller@, Action::RecordDeposit, amount_e8s, Option::Some(block_index)),
                ).push(
                    (
                        now,
                        caller@,
                        Action::AutoAddSilver,
                        SILVER_DEPOSIT_BONUS_E8S,
                        Option::None::<u64>,
                    ),
                ).push(
                    (now, caller@, Action::AutoAddGold, GOLD_DEPOSIT_BONUS_E8S, Option::None::<u64>),
                ).push(
                    (
                        now,
                        caller@,
                        Action::AutoAddHighScore,
                        HIGH_SCORE_DEPOSIT_BONUS_E8S,
                        Option::None::<u64>,
                    ),
                )
                &&& same_config(*old(self), *final(self))
            },
    {
        let verdict = evaluate_outcome(&self.self_identity, user, amount_e8s, outcome);
        let remaining = without_u64(&self.in_flight_blocks, block_index);
        self.in_flight_blocks = remaining;
        proof {
            assert forall|b: u64|
                !(self.credited_blocks@.contains(b) && self.in_flight_blocks@.contains(b)) by {}
        }
        match verdict {
            Result::Ok(()) => {
                proof {
                    assert(claims_transfer_of(*outcome, amount_e8s));
                    assert(!self.credited_blocks@.contains(block_index));
                }
                self.credit_balance(user, amount_e8s);
                let ghost mid = *self;
                proof {
                    lemma_push_no_dup(self.credited_blocks@, block_index);
                }
                let ghost c0 = self.credited_blocks@;
                self.credited_blocks.push(block_index);
                proof {
                    assert forall|b: u64| #[trigger]
                        self.credited_blocks@.contains(b) == (c0.contains(b) || b == block_index) by {
                        lemma_push_contains(c0, block_index, b);
                    }
                }
                self.silver_pot_e8s = self.silver_pot_e8s + SILVER_DEPOSIT_BONUS_E8S;
                self.gold_pot_e8s = self.gold_pot_e8s + GOLD_DEPOSIT_BONUS_E8S;
                self.high_score_pot_e8s = self.high_score_pot_e8s + HIGH_SCORE_DEPOSIT_BONUS_E8S;
                self.push_log(
                    caller,
                    Action::RecordDeposit,
                    amount_e8s,
                    Some(block_index),
                    now,
                );
                self.push_log(caller, Action::AutoAddSilver, SILVER_DEPOSIT_BONUS_E8S, None, now);
                self.push_log(caller, Action::AutoAddGold, GOLD_DEPOSIT_BONUS_E8S, None, now);
                self.push_log(
                    caller,
                    Action::AutoAddHighScore,
                    HIGH_SCORE_DEPOSIT_BONUS_E8S,
                    None,
                    now,
                );
                proof {
                    assert(self.balances == mid.balances);
                    assert forall|o: Seq<u8>| o != user@ implies self.balance_of(o) == old(
                        self,
                    ).balance_of(o) by {
                        assert(mid.balance_of(o) == old(self).balance_of(o));
                        assert(self.balance_of(o) == mid.balance_of(o));
                    }
                }
                true
            },
            Result::Err(_) => false,
        }
    }

    /// Whether the caller's balance covers a withdrawal of `amount_e8s`.
    /// Read and checked before the outbound transfer is attempted; no
    /// external call is owed when it fails.
    pub fn withdraw_check(&self, caller: &Identity, amount_e8s: u64) -> (r: bool)
        ensures
            r == (amount_e8s <= self.balance_of(caller@)),
    {
        let bal = get_balance(&self.balances, caller);
        amount_e8s <= bal
    }

    /// Step two of a withdrawal, taken when the outbound ledger transfer
    /// has ended. The balance is decremented only on proof of a completed
    /// transfer (the new block index) and after re-validating that the
    /// balance still covers the amount — never optimistically — so no
    /// sequence of operations drives a balance below zero. A ledger
    /// rejection or a failed call changes nothing.
    pub fn finish_withdraw(
        &mut self,
        caller: &Identity,
        amount_e8s: u64,
        event: TransferEvent,
        now: u64,
    ) -> (r: TransferResult)
        requires
            old(self).wf(),
        ensures
            final(self).wf(),
            match event {
                TransferEvent::Succeeded(idx) => if amount_e8s <= old(self).balance_of(caller@) {
                    &&& r == TransferResult::Completed(idx)
                    &&& final(self).balance_of(caller@) == old(self).balance_of(caller@)
                        - amount_e8s
                    &&& forall|o: Seq<u8>|
                        o != caller@ ==> final(self).balance_of(o) == old(self).balance_of(o)
                    &&& same_blocks(*old(self), *final(self))
                    &&& same_pots(*old(self), *final(self))
                    &&& same_config(*old(self), *final(self))
                    &&& final(self).logs_view() == old(self).logs_view().push(
                        (now, caller@, Action::Withdraw, amount_e8s, Option::Some(idx)),
                    )
                } else {
                    &&& *final(self) == *old(self)
                    &&& r matches TransferResult::Refused(m) && m@ == "Insufficient balance"@
                },
                TransferEvent::Rejected(m) => *final(self) == *old(self) && r
                    == TransferResult::Refused(m),
                TransferEvent::Failed(m) => *final(self) == *old(self) && r
                    == TransferResult::Refused(m),
            },
    {
        match event {
            TransferEvent::Succeeded(idx) => {
                let bal = get_balance(&self.balances, caller);
                if amount_e8s <= bal {
                    self.debit_balance(caller, amount_e8s);
                    self.push_log(caller, Action::Withdraw, amount_e8s, Some(idx), now);
                    TransferResult::Completed(idx)
                } else {
                    TransferResult::Refused("Insufficient balance".to_owned())
                }
            },
            TransferEvent::Rejected(m) => TransferResult::Refused(m),
            TransferEvent::Failed(m) => TransferResult::Refused(m),
        }
    }

    /// Privileged: concludes a custodian transfer order once the outbound
    /// ledger call has ended. Independent of any internal balance — the
    /// balance table is never read or written; a completed order is only
    /// logged. Fails closed when the caller is not on the allow-list, and
    /// carries the ledger's own reason when the ledger rejected the order
    /// or the call itself failed.
    pub fn finish_transfer(
        &mut self,
        caller: &Identity,
        args: &TransferArgs,
        event: TransferEvent,
        now: u64,
    ) -> (r: Result<u64, TransferError>)
        requires
            old(self).wf(),
        ensures
            final(self).wf(),
            !old(self).allowed_spec(caller@) ==> *final(self) == *old(self) && r == Err::<
                u64,
                TransferError,
            >(TransferError::NotAuthorized),
            old(self).allowed_spec(caller@) ==> match event {
                TransferEvent::Succeeded(idx) => {
                    &&& r == Ok::<u64, TransferError>(idx)
                    &&& same_balances(*old(self), *final(self))
                    &&& same_blocks(*old(self), *final(self))
                    &&& same_pots(*old(self), *final(self))
                    &&& same_config(*old(self), *final(self))
                    &&& final(self).logs_view() == old(self).logs_view().push(
                        (now, caller@, Action::Transfer, args.amount_e8s, Option::Some(idx)),
                    )
                },
                TransferEvent::Rejected(m) => *final(self) == *old(self) && r == Err::<
                    u64,
                    TransferError,
                >(TransferError::LedgerRejected(m)),
                TransferEvent::Failed(m) => *final(self) == *old(self) && r == Err::<
                    u64,
                    TransferError,
                >(TransferError::CallFailed(m)),
            },
    {
        if !self.is_allowed(caller) {
            return Err(TransferError::NotAuthorized);
        }
        match event {
            TransferEvent::Succeeded(idx) => {
                self.push_log(caller, Action::Transfer, args.amount_e8s, Some(idx), now);
                Ok(idx)
            },
            TransferEvent::Rejected(m) => Err(TransferError::LedgerRejected(m)),
            TransferEvent::Failed(m) => Err(TransferError::CallFailed(m)),
        }
    }

    /// Privileged: zeroes the high-score pot and logs it. Fails closed,
    /// changing nothing, when the caller is not allow-listed.
    pub fn reset_high_score_pot(&mut self, caller: &Identity, now: u64) -> (r: bool)
        requires
            old(self).wf(),
        ensures
            final(self).wf(),
            r == old(self).allowed_spec(caller@),
            !r ==> *final(self) == *old(self),
            r ==> final(self).high_score() == 0,
            r ==> final(self).silver() == old(self).silver() && final(self).gold() == old(
                self,
            ).gold(),
            r ==> same_balances(*old(self), *final(self)) && same_blocks(*old(self), *final(self))
                && same_config(*old(self), *final(self)),
            r ==> final(self).logs_view() == old(self).logs_view().push(
                (now, caller@, Action::ResetHighScorePot, 0u64, Option::None::<u64>),
            ),
    {
        if !self.is_allowed(caller) {
            return false;
        }
        self.high_score_pot_e8s = 0;
        self.push_log(caller, Action::ResetHighScorePot, 0, None, now);
        true
    }
    /// The whole persisted part of the current state, in the current
    /// snapshot schema.
    pub fn snapshot(&self) -> (r: Snapshot)
        ensures
            is_snapshot_of(r, *self),
    {
        Snapshot {
            balances: copy_balances(&self.balances),
            credited_blocks: copy_u64s(&self.credited_blocks),
            logs: copy_logs(&self.logs),
            silver_pot_e8s: self.silver_pot_e8s,
            gold_pot_e8s: self.gold_pot_e8s,
            high_score_pot_e8s: self.high_score_pot_e8s,
        }
    }

    /// Rebuilds the state at restart-after-upgrade from whatever could be
    /// read back, under the given configuration: a current-schema snapshot
    /// is taken whole; a legacy snapshot defaults all three pots to zero;
    /// with no snapshot the service starts empty. A failed reading never
    /// applies partially — the caller hands in only a whole decoded
    /// snapshot, or nothing. Credited blocks are de-duplicated so the
    /// dedup guard holds however the snapshot was stored; nothing is ever
    /// in flight after a restart.
    pub fn restore(allowed: Vec<Identity>, self_identity: Identity, stored: RestoreOutcome) -> (r:
        Bank)
        requires
            self_identity.wf(),
        ensures
            r.wf(),
            r.allowed_view() == allowed@.map_values(|a: Identity| a@),
            r.self_id() == self_identity@,
            r.in_flight_view() == Seq::<u64>::empty(),
            match stored {
                RestoreOutcome::Current(s) => restores_current(r, s),
                RestoreOutcome::Legacy(s) => restores_legacy(r, s),
                RestoreOutcome::Nothing => {
                    &&& forall|id: Seq<u8>| r.balance_of(id) == 0
                    &&& r.credited_view() == Seq::<u64>::empty()
                    &&& r.logs_view() == Seq::<LogData>::empty()
                    &&& r.silver() == 0 && r.gold() == 0 && r.high_score() == 0
                },
            },
    {
        match stored {
            RestoreOutcome::Current(s) => {
                let credited = dedup_u64(&s.credited_blocks);
                let r = Bank {
                    balances: s.balances,
                    credited_blocks: credited,
                    in_flight_blocks: Vec::new(),
                    logs: s.logs,
                    silver_pot_e8s: s.silver_pot_e8s,
                    gold_pot_e8s: s.gold_pot_e8s,
                    high_score_pot_e8s: s.high_score_pot_e8s,
                    allowed,
                    self_identity,
                };
                proof {
                    assert(r.in_flight_blocks@ =~= Seq::<u64>::empty());
                }
                r
            },
            RestoreOutcome::Legacy(s) => {
                let credited = dedup_u64(&s.credited_blocks);
                let r = Bank {
                    balances: s.balances,
                    credited_blocks: credited,
                    in_flight_blocks: Vec::new(),
                    logs: s.logs,
                    silver_pot_e8s: 0,
                    gold_pot_e8s: 0,
                    high_score_pot_e8s: 0,
                    allowed,
                    self_identity,
                };
                proof {
                    assert(r.in_flight_blocks@ =~= Seq::<u64>::empty());
                }
                r
            },
            RestoreOutcome::Nothing => Bank::new(allowed, self_identity),
        }
    }
}

/// `s` captures exactly the persisted part of `b`'s state.
pub open spec fn is_snapshot_of(s: Snapshot, b: Bank) -> bool {
    &&& forall|id: Seq<u8>| lookup(entry_views(s.balances@), id) == b.balance_of(id)
    &&& forall|blk: u64| s.credited_blocks@.contains(blk) == b.is_credited(blk)
    &&& log_views(s.logs@) == b.logs_view()
    &&& s.silver_pot_e8s == b.silver()
    &&& s.gold_pot_e8s == b.gold()
    &&& s.high_score_pot_e8s == b.high_score()
}

/// `r` is a restart from the current-schema snapshot `s`: balances,
/// credited blocks, logs and pots are those of the snapshot.
pub open spec fn restores_current(r: Bank, s: Snapshot) -> bool {
    &&& forall|id: Seq<u8>| r.balance_of(id) == lookup(entry_views(s.balances@), id)
    &&& forall|blk: u64| r.is_credited(blk) == s.credited_blocks@.contains(blk)
    &&& r.logs_view() == log_views(s.logs@)
    &&& r.silver() == s.silver_pot_e8s
    &&& r.gold() == s.gold_pot_e8s
    &&& r.high_score() == s.high_score_pot_e8s
}

/// `r` is a restart from the legacy snapshot `s`: balances, credited
/// blocks and logs are those of the snapshot, and — the schema lacking the
/// pot fields — all three pots default to zero.
pub open spec fn restores_legacy(r: Bank, s: LegacySnapshot) -> bool {
    &&& forall|id: Seq<u8>| r.balance_of(id) == lookup(entry_views(s.balances@), id)
    &&& forall|blk: u64| r.is_credited(blk) == s.credited_blocks@.contains(blk)
    &&& r.logs_view() == log_views(s.logs@)
    &&& r.silver() == 0
    &&& r.gold() == 0
    &&& r.high_score() == 0
}

/// Migration round-trip: restoring a current-schema snapshot of a state
/// reproduces that state's balance table, credited-block set, audit log
/// and pots, identically.
pub proof fn lemma_migration_round_trip(b: Bank, s: Snapshot, r: Bank)
    requires
        is_snapshot_of(s, b),
        restores_current(r, s),
    ensures
        forall|id: Seq<u8>| r.balance_of(id) == b.balance_of(id),
        forall|blk: u64| r.is_credited(blk) == b.is_credited(blk),
        r.logs_view() == b.logs_view(),
        r.silver() == b.silver(),
        r.gold() == b.gold(),
        r.high_score() == b.high_score(),
{
    assert forall|id: Seq<u8>| r.balance_of(id) == b.balance_of(id) by {
        assert(r.balance_of(id) == lookup(entry_views(s.balances@), id));
        assert(lookup(entry_views(s.balances@), id) == b.balance_of(id));
    }
    assert forall|blk: u64| r.is_credited(blk) == b.is_credited(blk) by {
        assert(r.is_credited(blk) == s.credited_blocks@.contains(blk));
        assert(s.credited_blocks@.contains(blk) == b.is_credited(blk));
    }
}

/// Restoring a legacy snapshot that carried some earlier state's balances,
/// credited blocks and logs reproduces them intact, with all three pots —
/// absent from that schema — equal to zero.
pub proof fn lemma_legacy_restore(b: Bank, s: LegacySnapshot, r: Bank)
    requires
        forall|id: Seq<u8>| lookup(entry_views(s.balances@), id) == b.balance_of(id),
        forall|blk: u64| s.credited_blocks@.contains(blk) == b.is_credited(blk),
        log_views(s.logs@) == b.logs_view(),
        restores_legacy(r, s),
    ensures
        forall|id: Seq<u8>| r.balance_of(id) == b.balance_of(id),
        forall|blk: u64| r.is_credited(blk) == b.is_credited(blk),
        r.logs_view() == b.logs_view(),
        r.silver() == 0 && r.gold() == 0 && r.high_score() == 0,
{
    assert forall|id: Seq<u8>| r.balance_of(id) == b.balance_of(id) by {
        assert(r.balance_of(id) == lookup(entry_views(s.balances@), id));
        assert(lookup(entry_views(s.balances@), id) == b.balance_of(id));
    }
    assert forall|blk: u64| r.is_credited(blk) == b.is_credited(blk) by {
        assert(r.is_credited(blk) == s.credited_blocks@.contains(blk));
        assert(s.credited_blocks@.contains(blk) == b.is_credited(blk));
    }
}

/// Idempotent crediting: a well-formed bank records a credited block index
/// exactly once — two positions of the credited set holding the same index
/// coincide. Together with `begin_deposit`'s contract (a credited index is
/// refused as already credited, with the state unchanged), a block can
/// never credit a deposit twice.
pub proof fn lemma_credited_exactly_once(b: Bank, i: int, j: int)
    requires
        b.wf(),
        0 <= i < b.credited_view().len(),
        0 <= j < b.credited_view().len(),
        b.credited_view()[i] == b.credited_view()[j],
    ensures
        i == j,
{
    if i != j {
        assert(b.credited_blocks@[i] != b.credited_blocks@[j]);
    }
}

} // verus!
