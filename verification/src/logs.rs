use vstd::prelude::*;
use crate::identity::{bytes_eq, Identity};

verus! {

/// The kind of state-changing action an audit entry records.
#[derive(Clone, Copy, PartialEq, Eq, Structural, Debug)]
pub enum Action {
    RecordDeposit,
    AutoAddSilver,
    AutoAddGold,
    AutoAddHighScore,
    Withdraw,
    Transfer,
    AddSilver,
    AddGold,
    ResetSilver,
    ResetGold,
    AddHighScorePot,
    ResetHighScorePot,
}

/// One immutable audit record. The log they form is append-only: entries
/// are never edited or removed, and their order is insertion order.
#[derive(Debug)]
pub struct LogEntry {
    pub timestamp: u64,
    pub caller: Identity,
    pub action: Action,
    pub amount_e8s: u64,
    pub block_index: Option<u64>,
}

/// The mathematical content of one audit record: timestamp, caller bytes,
/// action, amount, and the ledger block involved, if any.
pub type LogData = (u64, Seq<u8>, Action, u64, Option<u64>);

impl View for LogEntry {
    type V = LogData;

    open spec fn view(&self) -> LogData {
        (self.timestamp, self.caller@, self.action, self.amount_e8s, self.block_index)
    }
}

impl LogEntry {
    /// A fresh record with the same content.
    pub fn duplicate(&self) -> (r: LogEntry)
        ensures
            r@ == self@,
    {
        LogEntry {
            timestamp: self.timestamp,
            caller: self.caller.duplicate(),
            action: self.action,
            amount_e8s: self.amount_e8s,
            block_index: self.block_index,
        }
    }
}

/// The views of a sequence of audit records, oldest first.
pub open spec fn log_views(s: Seq<LogEntry>) -> Seq<LogData> {
    s.map_values(|e: LogEntry| e@)
}

/// Appending a record appends its view.
pub proof fn lemma_log_views_push(s: Seq<LogEntry>, e: LogEntry)
    ensures
        log_views(s.push(e)) == log_views(s).push(e@),
{
    assert(log_views(s.push(e)) =~= log_views(s).push(e@));
}

/// The records among `s` whose caller is `id`, in order.
pub open spec fn logs_for(s: Seq<LogData>, id: Seq<u8>) -> Seq<LogData>
    decreases s.len(),
{
    if s.len() == 0 {
        Seq::empty()
    } else if s.last().1 == id {
        logs_for(s.drop_last(), id).push(s.last())
    } else {
        logs_for(s.drop_last(), id)
    }
}

/// A fresh vector holding records with the same content in the same order.
pub fn copy_logs(v: &Vec<LogEntry>) -> (r: Vec<LogEntry>)
    ensures
        log_views(r@) == log_views(v@),
{
    let mut r: Vec<LogEntry> = Vec::new();
    let mut i: usize = 0;
    while i < v.len()
        invariant
            i <= v@.len(),
            r@.len() == i,
            forall|k: int| 0 <= k < i ==> r@[k]@ == v@[k]@,
        decreases v@.len() - i,
    {
        r.push(v[i].duplicate());
        i = i + 1;
    }
    proof {
        assert(log_views(r@) =~= log_views(v@));
    }
    r
}

/// The records of `v` whose caller is `id`, in order, as fresh values.
pub fn filter_logs(v: &Vec<LogEntry>, id: &Identity) -> (r: Vec<LogEntry>)
    ensures
        log_views(r@) == logs_for(log_views(v@), id@),
{
    let ghost full = log_views(v@);
    let mut r: Vec<LogEntry> = Vec::new();
    let mut i: usize = 0;
    while i < v.len()
        invariant
            i <= v@.len(),
            full == log_views(v@),
            log_views(r@) == logs_for(full.take(i as int), id@),
        decreases v@.len() - i,
    {
        let ghost prefix = full.take(i as int);
        let ghost next = full.take(i + 1 as int);
        proof {
            assert(next.drop_last() =~= prefix);
            assert(next.last() == v@[i as int]@);
        }
        if bytes_eq(&v[i].caller.bytes, &id.bytes) {
            let e = v[i].duplicate();
            proof {
                lemma_log_views_push(r@, e);
            }
            r.push(e);
            proof {
                assert(v@[i as int]@.1 == id@);
                assert(logs_for(next, id@) == logs_for(prefix, id@).push(next.last()));
            }
        } else {
            proof {
                assert(v@[i as int]@.1 != id@);
                assert(logs_for(next, id@) == logs_for(prefix, id@));
            }
        }
        i = i + 1;
    }
    proof {
        assert(full.take(v@.len() as int) =~= full);
    }
    r
}

} // verus!
