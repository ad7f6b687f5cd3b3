//! System maintenance: what each task reports, how a run is tallied, and what the
//! helper tools print.
use vstd::prelude::*;

use crate::path::{join, join_exec};
use crate::text::{
    chars_of, concat, contains_seq, contains_str, decimal, is_white_space, is_white_space_exec, lines,
    lines_seq, push_decimal, push_str, starts_with, string_of, trim, trim_seq,
};

verus! {

/// A maintenance task.
#[derive(Clone, Copy, Debug, PartialEq, Eq, Structural)]
pub enum MaintenanceTask {
    FlushDns,
    PurgeMemory,
    RebuildLaunchServices,
    ResetQuickLook,
    ResetFonts,
}

/// How a task went.
#[derive(Clone, Copy, Debug, PartialEq, Eq, Structural)]
pub enum TaskResult {
    /// A preview: nothing was run.
    DryRun,
    Succeeded,
    Failed,
    /// The tool it needs is not installed.
    ToolMissing,
}

/// What a task reports: whether it counts as done, and its message.
pub open spec fn task_outcome_spec(task: MaintenanceTask, result: TaskResult) -> (bool, Seq<char>) {
    match task {
        MaintenanceTask::FlushDns => match result {
            TaskResult::DryRun => (true, "[DRY RUN] Would flush DNS cache and restart mDNSResponder"@),
            TaskResult::Succeeded => (true, "Flushed DNS cache & refreshed mDNSResponder"@),
            _ => (false, "Failed to flush DNS cache"@),
        },
        MaintenanceTask::PurgeMemory => match result {
            TaskResult::DryRun => (true, "[DRY RUN] Would purge inactive disk memory caches (purge)"@),
            TaskResult::Succeeded => (true, "Purged inactive memory and disk caches"@),
            _ => (false, "Could not run memory purge (requires sudo or admin rights)"@),
        },
        MaintenanceTask::RebuildLaunchServices => match result {
            TaskResult::DryRun => (true, "[DRY RUN] Would rebuild LaunchServices registration database"@),
            TaskResult::Succeeded => (true, "Rebuilt LaunchServices database"@),
            TaskResult::ToolMissing => (false, "lsregister tool not found"@),
            TaskResult::Failed => (false, "Failed to rebuild LaunchServices database"@),
        },
        MaintenanceTask::ResetQuickLook => match result {
            TaskResult::DryRun => (true, "[DRY RUN] Would reset QuickLook thumbnail cache"@),
            TaskResult::Succeeded => (true, "Reset QuickLook thumbnail generator cache"@),
            _ => (false, "Failed to reset QuickLook cache"@),
        },
        MaintenanceTask::ResetFonts => match result {
            TaskResult::DryRun => (true, "[DRY RUN] Would reset Apple system font databases"@),
            TaskResult::Succeeded => (true, "Reset Apple font databases"@),
            _ => (false, "Failed to reset font databases"@),
        },
    }
}

/// What a task reports.
pub fn task_outcome(task: MaintenanceTask, result: TaskResult) -> (r: (bool, String))
    ensures
        (r.0, r.1@) == task_outcome_spec(task, result),
{
    match task {
        MaintenanceTask::FlushDns => match result {
            TaskResult::DryRun => (true, "[DRY RUN] Would flush DNS cache and restart mDNSResponder".to_string()),
            TaskResult::Succeeded => (true, "Flushed DNS cache & refreshed mDNSResponder".to_string()),
            _ => (false, "Failed to flush DNS cache".to_string()),
        },
        MaintenanceTask::PurgeMemory => match result {
            TaskResult::DryRun => (true, "[DRY RUN] Would purge inactive disk memory caches (purge)".to_string()),
            TaskResult::Succeeded => (true, "Purged inactive memory and disk caches".to_string()),
            _ => (false, "Could not run memory purge (requires sudo or admin rights)".to_string()),
        },
        MaintenanceTask::RebuildLaunchServices => match result {
            TaskResult::DryRun => (true, "[DRY RUN] Would rebuild LaunchServices registration database".to_string()),
            TaskResult::Succeeded => (true, "Rebuilt LaunchServices database".to_string()),
            TaskResult::ToolMissing => (false, "lsregister tool not found".to_string()),
            TaskResult::Failed => (false, "Failed to rebuild LaunchServices database".to_string()),
        },
        MaintenanceTask::ResetQuickLook => match result {
            TaskResult::DryRun => (true, "[DRY RUN] Would reset QuickLook thumbnail cache".to_string()),
            TaskResult::Succeeded => (true, "Reset QuickLook thumbnail generator cache".to_string()),
            _ => (false, "Failed to reset QuickLook cache".to_string()),
        },
        MaintenanceTask::ResetFonts => match result {
            TaskResult::DryRun => (true, "[DRY RUN] Would reset Apple system font databases".to_string()),
            TaskResult::Succeeded => (true, "Reset Apple font databases".to_string()),
            _ => (false, "Failed to reset font databases".to_string()),
        },
    }
}

/// The tally of a maintenance run.
pub struct OptimizeSummary {
    pub applied: usize,
    pub unchanged: usize,
    pub skipped: usize,
    pub logs: Vec<String>,
}

impl OptimizeSummary {
    /// Nothing done yet.
    pub fn new() -> (s: OptimizeSummary)
        ensures
            s.applied == 0,
            s.unchanged == 0,
            s.skipped == 0,
            s.logs@ == Seq::<String>::empty(),
    {
        OptimizeSummary { applied: 0, unchanged: 0, skipped: 0, logs: Vec::new() }
    }

    /// Counts a task: one that was done is applied and its message logged; a failed
    /// memory purge counts as unchanged, a failed DNS flush or LaunchServices rebuild as
    /// skipped, and a failed cache reset is not counted.
    pub fn record_task(&mut self, task: MaintenanceTask, ok: bool, message: String)
        requires
            old(self).applied < usize::MAX,
            old(self).unchanged < usize::MAX,
            old(self).skipped < usize::MAX,
        ensures
            ok ==> final(self).applied == old(self).applied + 1 && final(self).logs@ == old(self).logs@.push(
                message,
            ) && final(self).unchanged == old(self).unchanged && final(self).skipped == old(self).skipped,
            !ok ==> final(self).applied == old(self).applied && final(self).logs@ == old(self).logs@,
            !ok && task == MaintenanceTask::PurgeMemory ==> final(self).unchanged == old(self).unchanged + 1
                && final(self).skipped == old(self).skipped,
            !ok && (task == MaintenanceTask::FlushDns || task == MaintenanceTask::RebuildLaunchServices)
                ==> final(self).skipped == old(self).skipped + 1 && final(self).unchanged == old(self).unchanged,
            !ok && (task == MaintenanceTask::ResetQuickLook || task == MaintenanceTask::ResetFonts)
                ==> final(self).skipped == old(self).skipped && final(self).unchanged == old(self).unchanged,
    {
        if ok {
            self.applied = self.applied + 1;
            self.logs.push(message);
        } else {
            match task {
                MaintenanceTask::PurgeMemory => {
                    self.unchanged = self.unchanged + 1;
                },
                MaintenanceTask::FlushDns | MaintenanceTask::RebuildLaunchServices => {
                    self.skipped = self.skipped + 1;
                },
                _ => {},
            }
        }
    }

    /// Counts the databases vacuumed: each one is applied, and their messages logged.
    pub fn record_databases(&mut self, count: usize, logs: Vec<String>)
        requires
            old(self).applied + count <= usize::MAX,
        ensures
            final(self).applied == old(self).applied + count,
            final(self).unchanged == old(self).unchanged,
            final(self).skipped == old(self).skipped,
            count > 0 ==> final(self).logs@ == old(self).logs@ + logs@,
            count == 0 ==> final(self).logs@ == old(self).logs@,
    {
        if count > 0 {
            self.applied = self.applied + count;
            let mut logs = logs;
            self.logs.append(&mut logs);
        }
    }

    /// The closing line: `"Optimization Complete: <a> applied | <u> unchanged | <s> skipped"`.
    pub fn summary_line(&self) -> (m: String)
        ensures
            m@ == "Optimization Complete: "@ + decimal(self.applied as nat) + " applied | "@ + decimal(
                self.unchanged as nat,
            ) + " unchanged | "@ + decimal(self.skipped as nat) + " skipped"@,
    {
        let mut m = String::new();
        push_str(&mut m, "Optimization Complete: ");
        push_decimal(&mut m, self.applied as u64);
        push_str(&mut m, " applied | ");
        push_decimal(&mut m, self.unchanged as u64);
        push_str(&mut m, " unchanged | ");
        push_decimal(&mut m, self.skipped as u64);
        push_str(&mut m, " skipped");
        m
    }
}

/// The SQLite databases that are vacuumed, under `home`.
pub open spec fn sqlite_targets_spec(home: Seq<char>) -> Seq<Seq<char>> {
    seq![
        join(home, "Library/Safari/History.db"@),
        join(home, "Library/Mail/V10/MailData/Envelope Index"@),
        join(home, "Library/Mail/V9/MailData/Envelope Index"@),
        join(home, "Library/Group Containers/group.com.apple.notes/NoteStore.sqlite"@),
    ]
}

/// The SQLite databases that are vacuumed, under `home`.
pub fn sqlite_targets(home: &str) -> (out: Vec<String>)
    ensures
        out@.map_values(|s: String| s@) == sqlite_targets_spec(home@),
{
    let out = vec![
        join_exec(home, "Library/Safari/History.db"),
        join_exec(home, "Library/Mail/V10/MailData/Envelope Index"),
        join_exec(home, "Library/Mail/V9/MailData/Envelope Index"),
        join_exec(home, "Library/Group Containers/group.com.apple.notes/NoteStore.sqlite"),
    ];
    assert(out@.map_values(|s: String| s@) =~= sqlite_targets_spec(home@));
    out
}

/// What is said of a database: what a preview would vacuum, or what was vacuumed.
pub fn database_message(path: &str, dry_run: bool) -> (m: String)
    ensures
        dry_run ==> m@ == "[DRY RUN] Would vacuum SQLite database: "@ + path@,
        !dry_run ==> m@ == "✓ Vacuumed database: "@ + path@,
{
    if dry_run {
        concat("[DRY RUN] Would vacuum SQLite database: ", path)
    } else {
        concat("✓ Vacuumed database: ", path)
    }
}

/// The position just after the last white-space character of `s` (zero when there is
/// none).
pub open spec fn after_last_space(s: Seq<char>) -> nat
    decreases s.len(),
{
    if s.len() == 0 {
        0
    } else if is_white_space(s.last()) {
        s.len()
    } else {
        after_last_space(s.drop_last())
    }
}

/// The last white-space-separated word of a line (`split_whitespace().last()`).
pub open spec fn last_word(line: Seq<char>) -> Option<Seq<char>> {
    let t = crate::text::trim_end_seq(line);
    if t.len() == 0 {
        None
    } else {
        Some(t.subrange(after_last_space(t) as int, t.len() as int))
    }
}

/// The disk image mount points `hdiutil info` lists: on lines mentioning `/Volumes/`, the
/// last word, when it starts with `/Volumes/` and is not the system volume.
pub open spec fn image_mount(line: Seq<char>) -> Option<Seq<char>> {
    if contains_seq(line, "/Volumes/"@) {
        match last_word(line) {
            Some(w) => if "/Volumes/"@.is_prefix_of(w) && !contains_seq(w, "Macintosh"@) {
                Some(w)
            } else {
                None
            },
            None => None,
        }
    } else {
        None
    }
}

proof fn lemma_after_last_space_bound(s: Seq<char>)
    ensures
        after_last_space(s) <= s.len(),
    decreases s.len(),
{
    if s.len() > 0 && !is_white_space(s.last()) {
        lemma_after_last_space_bound(s.drop_last());
    }
}

/// The last word of a line.
pub fn last_word_exec(line: &str) -> (out: Option<String>)
    ensures
        match out {
            Some(w) => last_word(line@) == Some(w@),
            None => last_word(line@) is None,
        },
{
    let v = chars_of(line);
    let mut e: usize = v.len();
    assert(v@.take(e as int) =~= v@);
    while e > 0 && is_white_space_exec(v[e - 1])
        invariant
            e <= v.len(),
            v@ == line@,
            crate::text::trim_end_seq(line@) == crate::text::trim_end_seq(v@.take(e as int)),
        decreases e,
    {
        assert(v@.take(e as int).drop_last() =~= v@.take(e - 1));
        e = e - 1;
    }
    proof {
        if e > 0 {
            assert(crate::text::trim_end_seq(v@.take(e as int)) == v@.take(e as int));
        } else {
            assert(v@.take(0) =~= Seq::<char>::empty());
        }
    }
    if e == 0 {
        assert(v@.take(0) =~= Seq::<char>::empty());
        return None;
    }
    if e == v.len() {
        assert(v@.take(e as int) =~= v@);
    }
    let ghost t = v@.take(e as int);
    let mut b: usize = e;
    assert(t.take(e as int) =~= t);
    while b > 0 && !is_white_space_exec(v[b - 1])
        invariant
            b <= e <= v.len(),
            t == v@.take(e as int),
            after_last_space(t) == after_last_space(t.take(b as int)),
        decreases b,
    {
        assert(t.take(b as int).drop_last() =~= t.take(b - 1));
        b = b - 1;
    }
    proof {
        if b > 0 {
            assert(t.take(b as int).last() == v@[b - 1]);
        } else {
            assert(t.take(0) =~= Seq::<char>::empty());
        }
        assert(t.take(e as int) =~= t);
    }
    let w = string_of(&v, b, e);
    assert(t.subrange(b as int, e as int) =~= v@.subrange(b as int, e as int));
    Some(w)
}

/// The disk image mount point a line of `hdiutil info` names, if any.
pub fn image_mount_exec(line: &str) -> (out: Option<String>)
    ensures
        match out {
            Some(w) => image_mount(line@) == Some(w@),
            None => image_mount(line@) is None,
        },
{
    if !contains_str(line, "/Volumes/") {
        return None;
    }
    match last_word_exec(line) {
        None => None,
        Some(w) => {
            if starts_with(w.as_str(), "/Volumes/") && !contains_str(w.as_str(), "Macintosh") {
                Some(w)
            } else {
                None
            }
        },
    }
}

/// The disk image mounts in the output of `hdiutil info`, and what is said of each:
/// what a preview would inspect, or what was detected.
pub fn disk_image_report(output: &str, dry_run: bool) -> (r: (usize, Vec<String>))
    ensures
        r.0 == r.1.len(),
        r.1@.map_values(|s: String| s@) == lines_seq(output@).filter(|l: Seq<char>| image_mount(l) is Some).map_values(
            |l: Seq<char>|
                if dry_run {
                    "[DRY RUN] Would inspect disk image mount: "@ + image_mount(l)->Some_0
                } else {
                    "Detected disk image mount: "@ + image_mount(l)->Some_0
                },
        ),
{
    let ls = lines(output);
    let ghost all = lines_seq(output@);
    let mut logs: Vec<String> = Vec::new();
    let mut i: usize = 0;
    while i < ls.len()
        invariant
            i <= ls.len(),
            ls@.map_values(|l: String| l@) == all,
            logs@.map_values(|s: String| s@) == all.take(i as int).filter(|l: Seq<char>| image_mount(l) is Some).map_values(
                |l: Seq<char>|
                    if dry_run {
                        "[DRY RUN] Would inspect disk image mount: "@ + image_mount(l)->Some_0
                    } else {
                        "Detected disk image mount: "@ + image_mount(l)->Some_0
                    },
            ),
        decreases ls.len() - i,
    {
        let ghost before = logs@.map_values(|s: String| s@);
        proof {
            assert(all.take(i + 1) =~= all.take(i as int).push(all[i as int]));
            all.take(i as int).lemma_filter_push(all[i as int], |l: Seq<char>| image_mount(l) is Some);
        }
        assert(all[i as int] == ls@[i as int]@);
        match image_mount_exec(ls[i].as_str()) {
            Some(m) => {
                let msg = if dry_run {
                    concat("[DRY RUN] Would inspect disk image mount: ", m.as_str())
                } else {
                    concat("Detected disk image mount: ", m.as_str())
                };
                logs.push(msg);
                assert(logs@.map_values(|s: String| s@) =~= before.push(
                    if dry_run {
                        "[DRY RUN] Would inspect disk image mount: "@ + image_mount(all[i as int])->Some_0
                    } else {
                        "Detected disk image mount: "@ + image_mount(all[i as int])->Some_0
                    },
                ));
            },
            None => {},
        }
        i = i + 1;
    }
    assert(all.take(ls.len() as int) =~= all);
    (logs.len(), logs)
}

/// The text after the last `'.'` of a line (the whole line when it has none).
pub open spec fn after_last_dot(line: Seq<char>) -> Seq<char> {
    let i = crate::path::last_index_of(line, '.');
    line.subrange(i + 1, line.len() as int)
}

/// The snapshot named on a line of `tmutil listlocalsnapshots`: the text after its last
/// `'.'`, trimmed, when not empty.
pub open spec fn snapshot_of(line: Seq<char>) -> Option<Seq<char>> {
    let s = trim_seq(after_last_dot(line));
    if s.len() > 0 {
        Some(s)
    } else {
        None
    }
}

/// The position just after the last `'.'` of `v` (zero when there is none).
fn after_last_dot_start(v: &Vec<char>) -> (j: usize)
    ensures
        j <= v.len(),
        v@.subrange(j as int, v.len() as int) == after_last_dot(v@),
{
    let mut j: usize = v.len();
    assert(v@.take(j as int) =~= v@);
    while j > 0 && v[j - 1] != '.'
        invariant
            j <= v.len(),
            crate::path::last_index_of(v@, '.') == crate::path::last_index_of(v@.take(j as int), '.'),
        decreases j,
    {
        assert(v@.take(j as int).drop_last() =~= v@.take(j - 1));
        j = j - 1;
    }
    proof {
        if j == 0 {
            assert(v@.take(0) =~= Seq::<char>::empty());
        } else {
            assert(v@.take(j as int).last() == '.');
        }
        assert(crate::path::last_index_of(v@, '.') + 1 == j);
    }
    j
}

/// The snapshot named on a line of `tmutil listlocalsnapshots`.
pub fn snapshot_of_exec(line: &str) -> (out: Option<String>)
    ensures
        match out {
            Some(s) => snapshot_of(line@) == Some(s@),
            None => snapshot_of(line@) is None,
        },
{
    let v = chars_of(line);
    let j = after_last_dot_start(&v);
    let tail = string_of(&v, j, v.len());
    let s = trim(tail.as_str());
    let sc = chars_of(s.as_str());
    if sc.len() > 0 {
        Some(s)
    } else {
        None
    }
}

/// The local snapshots `tmutil listlocalsnapshots /` lists, in order.
pub fn snapshot_names(output: &str) -> (out: Vec<String>)
    ensures
        out@.map_values(|s: String| s@) == lines_seq(output@).filter(|l: Seq<char>| snapshot_of(l) is Some).map_values(
            |l: Seq<char>| snapshot_of(l)->Some_0,
        ),
{
    let ls = lines(output);
    let ghost all = lines_seq(output@);
    let mut out: Vec<String> = Vec::new();
    let mut i: usize = 0;
    while i < ls.len()
        invariant
            i <= ls.len(),
            ls@.map_values(|l: String| l@) == all,
            out@.map_values(|s: String| s@) == all.take(i as int).filter(|l: Seq<char>| snapshot_of(l) is Some).map_values(
                |l: Seq<char>| snapshot_of(l)->Some_0,
            ),
        decreases ls.len() - i,
    {
        let ghost before = out@.map_values(|s: String| s@);
        proof {
            assert(all.take(i + 1) =~= all.take(i as int).push(all[i as int]));
            all.take(i as int).lemma_filter_push(all[i as int], |l: Seq<char>| snapshot_of(l) is Some);
        }
        assert(all[i as int] == ls@[i as int]@);
        match snapshot_of_exec(ls[i].as_str()) {
            Some(s) => {
                out.push(s);
                assert(out@.map_values(|s: String| s@) =~= before.push(snapshot_of(all[i as int])->Some_0));
            },
            None => {},
        }
        i = i + 1;
    }
    assert(all.take(ls.len() as int) =~= all);
    out
}

/// What is said of a snapshot: what a preview would delete, or what was deleted.
pub fn snapshot_message(name: &str, dry_run: bool) -> (m: String)
    ensures
        dry_run ==> m@ == "[DRY RUN] Would delete TM snapshot: "@ + name@,
        !dry_run ==> m@ == "Deleted TM snapshot: "@ + name@,
{
    if dry_run {
        concat("[DRY RUN] Would delete TM snapshot: ", name)
    } else {
        concat("Deleted TM snapshot: ", name)
    }
}

} // verus!
