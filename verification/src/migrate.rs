use vstd::prelude::*;
use crate::identity::Identity;
use crate::logs::LogEntry;

verus! {

/// A whole-state snapshot in the current schema, written at
/// shutdown-for-upgrade and read back at restart. Configuration (the
/// allow-list and the service's own identity) is not part of a snapshot;
/// it is supplied again at initialization.
pub struct Snapshot {
    pub balances: Vec<(Identity, u64)>,
    pub credited_blocks: Vec<u64>,
    pub logs: Vec<LogEntry>,
    pub silver_pot_e8s: u64,
    pub gold_pot_e8s: u64,
    pub high_score_pot_e8s: u64,
}

/// A whole-state snapshot in the legacy schema, which predates the three
/// pot fields. Read only, never written.
pub struct LegacySnapshot {
    pub balances: Vec<(Identity, u64)>,
    pub credited_blocks: Vec<u64>,
    pub logs: Vec<LogEntry>,
}

/// What could be read back from durable storage at restart, the variants
/// tried in exactly this order: the tagged current schema, then the legacy
/// schema, then nothing at all (first activation or no readable snapshot).
pub enum RestoreOutcome {
    Current(Snapshot),
    Legacy(LegacySnapshot),
    Nothing,
}

} // verus!
