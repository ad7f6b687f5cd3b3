//! The history of operations and deletions, kept as JSON lines in the log directory.
use vstd::prelude::*;

use crate::config::{log_dir_of, CleanerConfig};
use crate::path::{join, join_exec};

verus! {

/// One operation of the cleaner.
pub struct OperationRecord {
    pub timestamp: String,
    pub command: String,
    pub target: String,
    pub size_bytes: u64,
    pub status: String,
}

/// One deletion made by the cleaner.
pub struct DeletionRecord {
    pub timestamp: String,
    pub path: String,
    pub size_bytes: u64,
    pub moved_to_trash: bool,
}

/// Where the history is written.
pub struct HistoryLogger {
    operations_log: String,
    deletions_log: String,
}

/// `chrono::Utc::now().to_rfc3339()`: the current time in RFC 3339 form. It reads the
/// clock, so nothing is stated of it.
#[verifier::external_body]
fn now_rfc3339() -> String {
    chrono::Utc::now().to_rfc3339()
}

impl HistoryLogger {
    /// The operations log file.
    pub closed spec fn operations_log_spec(&self) -> Seq<char> {
        self.operations_log@
    }

    /// The deletions log file.
    pub closed spec fn deletions_log_spec(&self) -> Seq<char> {
        self.deletions_log@
    }

    /// A logger writing `operations.log` and `deletions.log` in `log_dir`.
    pub fn for_log_dir(log_dir: &str) -> (l: HistoryLogger)
        ensures
            l.operations_log_spec() == join(log_dir@, "operations.log"@),
            l.deletions_log_spec() == join(log_dir@, "deletions.log"@),
    {
        HistoryLogger {
            operations_log: join_exec(log_dir, "operations.log"),
            deletions_log: join_exec(log_dir, "deletions.log"),
        }
    }

    /// A logger writing in the cleaner's log directory (`~/Library/Logs/pantau`).
    pub fn new() -> (l: HistoryLogger)
        ensures
            exists|home: Seq<char>|
                l.operations_log_spec() == join(log_dir_of(home), "operations.log"@)
                    && l.deletions_log_spec() == join(log_dir_of(home), "deletions.log"@),
    {
        let config = CleanerConfig::new();
        Self::for_log_dir(config.log_dir.as_str())
    }

    /// The operations log file.
    pub fn operations_log(&self) -> (p: &str)
        ensures
            p@ == self.operations_log_spec(),
    {
        self.operations_log.as_str()
    }

    /// The deletions log file.
    pub fn deletions_log(&self) -> (p: &str)
        ensures
            p@ == self.deletions_log_spec(),
    {
        self.deletions_log.as_str()
    }

    /// The record of an operation, stamped with the current time.
    pub fn operation_record(command: &str, target: &str, size_bytes: u64, status: &str) -> (r: OperationRecord)
        ensures
            r.command@ == command@,
            r.target@ == target@,
            r.size_bytes == size_bytes,
            r.status@ == status@,
    {
        OperationRecord {
            timestamp: now_rfc3339(),
            command: command.to_string(),
            target: target.to_string(),
            size_bytes,
            status: status.to_string(),
        }
    }

    /// The record of a deletion, stamped with the current time.
    pub fn deletion_record(path: &str, size_bytes: u64, moved_to_trash: bool) -> (r: DeletionRecord)
        ensures
            r.path@ == path@,
            r.size_bytes == size_bytes,
            r.moved_to_trash == moved_to_trash,
    {
        DeletionRecord { timestamp: now_rfc3339(), path: path.to_string(), size_bytes, moved_to_trash }
    }
}

/// The last `limit` records of a log, most recent first.
pub open spec fn most_recent_spec<T>(records: Seq<T>, limit: nat) -> Seq<T> {
    let r = records.reverse();
    if limit < r.len() {
        r.take(limit as int)
    } else {
        r
    }
}

/// The last `limit` records of a log (read oldest first), most recent first.
pub fn most_recent<T>(records: Vec<T>, limit: usize) -> (out: Vec<T>)
    ensures
        out@ == most_recent_spec(records@, limit as nat),
{
    let ghost orig = records@;
    let mut rest = records;
    let mut out: Vec<T> = Vec::new();
    while rest.len() > 0 && out.len() < limit
        invariant
            rest@ == orig.take(rest.len() as int),
            out.len() + rest.len() == orig.len(),
            out@ == orig.reverse().take(out.len() as int),
            out.len() <= limit,
        decreases rest.len(),
    {
        let ghost before = rest@;
        let x = rest.pop().unwrap();
        assert(orig.take(before.len() as int)[rest.len() as int] == x);
        assert(rest@ =~= orig.take(rest.len() as int));
        let ghost old_out = out@;
        out.push(x);
        assert(orig.reverse()[old_out.len() as int] == orig[orig.len() - 1 - old_out.len()]);
        assert(out@ =~= orig.reverse().take(out.len() as int));
    }
    assert(orig.reverse().len() == orig.len());
    proof {
        if out.len() >= limit {
            if (limit as nat) < orig.len() {
            } else {
                assert(orig.reverse().take(out.len() as int) =~= orig.reverse());
            }
        } else {
            assert(orig.reverse().take(out.len() as int) =~= orig.reverse());
        }
    }
    out
}

} // verus!
