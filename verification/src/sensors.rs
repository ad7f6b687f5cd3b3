//! Integer bookkeeping of the system sensors: CPU tick deltas, memory page counts,
//! network counters per interface. Reading the counters from the kernel, and the
//! percentages and rates computed from these integers, belong to the caller.
use vstd::prelude::*;

use crate::text::{starts_with, str_eq};

verus! {

/// The group a sensor belongs to.
#[derive(Clone, Copy, Debug, PartialEq, Eq, Structural)]
pub enum SensorGroup {
    Processor,
    Memory,
    System,
}

/// A sensor: its group and key.
pub struct SensorId {
    pub group: SensorGroup,
    pub key: &'static str,
}

impl SensorId {
    /// The sensor with this group and key.
    pub fn new(group: SensorGroup, key: &'static str) -> (s: SensorId)
        ensures
            s.group == group,
            s.key == key,
    {
        SensorId { group, key }
    }
}

/// One core's tick counters, cumulative since boot.
#[derive(Clone, Copy, Debug)]
pub struct CpuTicks {
    pub user: u32,
    pub system: u32,
    pub idle: u32,
    pub nice: u32,
}

impl CpuTicks {
    /// All ticks.
    pub open spec fn total_spec(&self) -> int {
        self.user + self.system + self.idle + self.nice
    }

    /// The ticks not idle.
    pub open spec fn busy_spec(&self) -> int {
        self.user + self.system + self.nice
    }

    /// All ticks.
    pub fn total(&self) -> (t: u64)
        ensures
            t == self.total_spec(),
    {
        self.user as u64 + self.system as u64 + self.idle as u64 + self.nice as u64
    }

    /// The ticks not idle.
    pub fn busy(&self) -> (b: u64)
        ensures
            b == self.busy_spec(),
    {
        self.user as u64 + self.system as u64 + self.nice as u64
    }
}

/// The kernel's virtual memory statistics (`host_statistics64`, `HOST_VM_INFO64`).
#[allow(non_camel_case_types)]
#[derive(Clone, Copy, Debug)]
pub struct vm_statistics64 {
    pub free_count: u32,
    pub active_count: u32,
    pub inactive_count: u32,
    pub wire_count: u32,
    pub zero_fill_count: u64,
    pub reactivations: u64,
    pub pageins: u64,
    pub pageouts: u64,
    pub faults: u64,
    pub cow_faults: u64,
    pub lookups: u64,
    pub hits: u64,
    pub purges: u64,
    pub purgeable_count: u32,
    pub speculative_count: u32,
    pub decompressions: u64,
    pub compressions: u64,
    pub swapins: u64,
    pub swapouts: u64,
    pub compressor_page_count: u32,
    pub throttled_count: u32,
    pub external_page_count: u32,
    pub internal_page_count: u32,
    pub total_uncompressed_pages_in_compressor: u64,
}

/// A volume's size in bytes from its block counts: total (all blocks), used (total less
/// what is available, never below zero) and free (blocks available to ordinary users).
pub open spec fn disk_bytes_spec(blocks: u64, avail: u64, block_size: u64) -> (int, int, int) {
    let total = blocks * block_size;
    let free = avail * block_size;
    (total, if total >= free { total - free } else { 0 }, free)
}

/// A volume's size in bytes (see `disk_bytes_spec`); `None` when the total or the free
/// amount does not fit in 64 bits.
pub fn disk_bytes(blocks: u64, avail: u64, block_size: u64) -> (r: Option<(u64, u64, u64)>)
    ensures
        ({
            let d = disk_bytes_spec(blocks, avail, block_size);
            match r {
                Some((t, u, f)) => t == d.0 && u == d.1 && f == d.2,
                None => d.0 > u64::MAX || d.2 > u64::MAX,
            }
        }),
{
    let total = match blocks.checked_mul(block_size) {
        Some(v) => v,
        None => return None,
    };
    let free = match avail.checked_mul(block_size) {
        Some(v) => v,
        None => return None,
    };
    Some((total, total.saturating_sub(free), free))
}

/// Memory in bytes from the page counts: in use (active, wired and compressed pages),
/// free, available (free and inactive), and cached (file-backed pages).
pub open spec fn memory_bytes_spec(s: vm_statistics64, page: u64) -> (int, int, int, int) {
    (
        (s.active_count + s.wire_count + s.compressor_page_count) * page,
        s.free_count * page,
        s.free_count * page + s.inactive_count * page,
        s.external_page_count * page,
    )
}

/// Memory in bytes from the page counts (see `memory_bytes_spec`); `None` when a
/// value does not fit in 64 bits.
pub fn memory_bytes(s: &vm_statistics64, page: u64) -> (r: Option<(u64, u64, u64, u64)>)
    ensures
        ({
            let m = memory_bytes_spec(*s, page);
            match r {
                Some((a, f, av, c)) => a == m.0 && f == m.1 && av == m.2 && c == m.3,
                None => m.0 > u64::MAX || m.1 > u64::MAX || m.2 > u64::MAX || m.3 > u64::MAX,
            }
        }),
{
    let pages: u64 = s.active_count as u64 + s.wire_count as u64 + s.compressor_page_count as u64;
    let allocated = match pages.checked_mul(page) {
        Some(v) => v,
        None => return None,
    };
    let free = match (s.free_count as u64).checked_mul(page) {
        Some(v) => v,
        None => return None,
    };
    let inactive = match (s.inactive_count as u64).checked_mul(page) {
        Some(v) => v,
        None => {
            assert(s.inactive_count * page > u64::MAX);
            assert(s.free_count * page + s.inactive_count * page > u64::MAX) by (nonlinear_arith)
                requires
                    s.inactive_count * page > u64::MAX,
                    s.free_count * page >= 0,
            ;
            return None;
        },
    };
    let available = match free.checked_add(inactive) {
        Some(v) => v,
        None => return None,
    };
    let cached = match (s.external_page_count as u64).checked_mul(page) {
        Some(v) => v,
        None => return None,
    };
    Some((allocated, free, available, cached))
}

/// For each core, the busy and total ticks since the previous sample (never below
/// zero), when the previous sample covered the same number of cores; none otherwise.
pub open spec fn core_deltas_spec(previous: Seq<CpuTicks>, current: Seq<CpuTicks>) -> Seq<(int, int)> {
    if previous.len() == current.len() && previous.len() > 0 {
        Seq::new(
            current.len(),
            |i: int|
                (
                    sat_sub(current[i].busy_spec(), previous[i].busy_spec()),
                    sat_sub(current[i].total_spec(), previous[i].total_spec()),
                ),
        )
    } else {
        Seq::empty()
    }
}

/// `a - b`, or zero when `b` is larger.
pub open spec fn sat_sub(a: int, b: int) -> int {
    if a >= b {
        a - b
    } else {
        0
    }
}

/// Keeps the previous CPU sample so that each sample gives per-core deltas.
pub struct CpuSampler {
    previous: Vec<CpuTicks>,
}

impl CpuSampler {
    /// The sample kept.
    pub closed spec fn previous_spec(&self) -> Seq<CpuTicks> {
        self.previous@
    }

    /// No sample yet.
    pub fn new() -> (s: CpuSampler)
        ensures
            s.previous_spec() == Seq::<CpuTicks>::empty(),
    {
        CpuSampler { previous: Vec::new() }
    }

    /// Takes a sample: the per-core busy and total tick deltas since the previous one
    /// (none on the first sample, or when the number of cores changed); the sample is
    /// kept for the next time.
    pub fn sample_deltas(&mut self, current: Vec<CpuTicks>) -> (out: Vec<(u64, u64)>)
        ensures
            out@.map_values(|d: (u64, u64)| (d.0 as int, d.1 as int)) == core_deltas_spec(
                old(self).previous_spec(),
                current@,
            ),
            final(self).previous_spec() == current@,
    {
        let mut out: Vec<(u64, u64)> = Vec::new();
        if self.previous.len() == current.len() && self.previous.len() > 0 {
            let mut i: usize = 0;
            while i < current.len()
                invariant
                    i <= current.len(),
                    self.previous.len() == current.len(),
                    out.len() == i,
                    forall|j: int|
                        0 <= j < i ==> (#[trigger] out@[j].0 as int, out@[j].1 as int) == (
                            sat_sub(current@[j].busy_spec(), self.previous@[j].busy_spec()),
                            sat_sub(current@[j].total_spec(), self.previous@[j].total_spec()),
                        ),
                decreases current.len() - i,
            {
                let now = current[i];
                let prev = self.previous[i];
                let busy = now.busy().saturating_sub(prev.busy());
                let total = now.total().saturating_sub(prev.total());
                out.push((busy, total));
                i = i + 1;
            }
            assert(out@.map_values(|d: (u64, u64)| (d.0 as int, d.1 as int)) =~= core_deltas_spec(
                self.previous@,
                current@,
            ));
        } else {
            assert(out@.map_values(|d: (u64, u64)| (d.0 as int, d.1 as int)) =~= core_deltas_spec(
                self.previous@,
                current@,
            ));
        }
        self.previous = current;
        out
    }
}

/// The sum of all ticks and of the idle ticks over all cores.
pub open spec fn tick_sums_spec(ticks: Seq<CpuTicks>) -> (int, int)
    decreases ticks.len(),
{
    if ticks.len() == 0 {
        (0, 0)
    } else {
        let r = tick_sums_spec(ticks.drop_last());
        (r.0 + ticks.last().total_spec(), r.1 + ticks.last().idle)
    }
}

proof fn lemma_tick_sums_bound(ticks: Seq<CpuTicks>)
    ensures
        0 <= tick_sums_spec(ticks).1 <= tick_sums_spec(ticks).0,
    decreases ticks.len(),
{
    if ticks.len() > 0 {
        lemma_tick_sums_bound(ticks.drop_last());
    }
}

/// The sum of all ticks and of the idle ticks over all cores; `None` when a sum does
/// not fit in 64 bits.
pub fn tick_sums(ticks: &Vec<CpuTicks>) -> (r: Option<(u64, u64)>)
    ensures
        match r {
            Some((t, i)) => t == tick_sums_spec(ticks@).0 && i == tick_sums_spec(ticks@).1,
            None => tick_sums_spec(ticks@).0 > u64::MAX,
        },
{
    let mut total: u64 = 0;
    let mut idle: u64 = 0;
    let mut i: usize = 0;
    while i < ticks.len()
        invariant
            i <= ticks.len(),
            total == tick_sums_spec(ticks@.take(i as int)).0,
            idle == tick_sums_spec(ticks@.take(i as int)).1,
        decreases ticks.len() - i,
    {
        proof {
            assert(ticks@.take(i + 1).drop_last() =~= ticks@.take(i as int));
            lemma_tick_sums_bound(ticks@.take(i + 1));
            lemma_tick_sums_prefix(ticks@, i + 1);
        }
        let t = ticks[i];
        total = match total.checked_add(t.total()) {
            Some(v) => v,
            None => return None,
        };
        idle = idle + t.idle as u64;
        i = i + 1;
    }
    assert(ticks@.take(ticks.len() as int) =~= ticks@);
    Some((total, idle))
}

proof fn lemma_tick_sums_prefix(ticks: Seq<CpuTicks>, i: int)
    requires
        0 <= i <= ticks.len(),
    ensures
        tick_sums_spec(ticks.take(i)).0 <= tick_sums_spec(ticks).0,
    decreases ticks.len() - i,
{
    if i < ticks.len() {
        lemma_tick_sums_prefix(ticks, i + 1);
        assert(ticks.take(i + 1).drop_last() =~= ticks.take(i));
    } else {
        assert(ticks.take(i) =~= ticks);
    }
}

/// The received and sent byte counters of an interface.
#[derive(Clone, Copy, Debug)]
pub struct RawCounters {
    pub rx_bytes: u64,
    pub tx_bytes: u64,
}

/// An interface's totals, what it moved since watching began, and what it moved since
/// the previous sample with the milliseconds that took (none on its first sample).
pub struct InterfaceDelta {
    pub name: String,
    pub rx_bytes_total: u64,
    pub tx_bytes_total: u64,
    pub rx_bytes_session: u64,
    pub tx_bytes_session: u64,
    pub since_previous: Option<(u64, u64, u64)>,
}

/// Keeps, per interface, its counters at the first sample and at the previous one.
pub struct NetworkAccumulator {
    previous: Vec<(String, RawCounters, u64)>,
    session_baseline: Vec<(String, RawCounters)>,
}

/// What `entries` holds for `name`: the value of its last entry with that name.
pub open spec fn lookup<T>(entries: Seq<(Seq<char>, T)>, name: Seq<char>) -> Option<T>
    decreases entries.len(),
{
    if entries.len() == 0 {
        None
    } else if entries.last().0 == name {
        Some(entries.last().1)
    } else {
        lookup(entries.drop_last(), name)
    }
}

/// No two entries of `entries` carry the same name.
pub open spec fn names_distinct<T>(entries: Seq<(Seq<char>, T)>) -> bool {
    forall|i: int, j: int|
        0 <= i < j < entries.len() ==> #[trigger] entries[i].0 != #[trigger] entries[j].0
}

proof fn lemma_lookup_at<T>(entries: Seq<(Seq<char>, T)>, i: int)
    requires
        names_distinct(entries),
        0 <= i < entries.len(),
    ensures
        lookup(entries, entries[i].0) == Some(entries[i].1),
    decreases entries.len(),
{
    if i < entries.len() - 1 {
        assert(entries.last().0 != entries[i].0);
        lemma_lookup_at(entries.drop_last(), i);
    }
}

proof fn lemma_lookup_absent<T>(entries: Seq<(Seq<char>, T)>, name: Seq<char>)
    requires
        forall|i: int| 0 <= i < entries.len() ==> #[trigger] entries[i].0 != name,
    ensures
        lookup(entries, name) is None,
    decreases entries.len(),
{
    if entries.len() > 0 {
        assert(entries.last().0 != name);
        lemma_lookup_absent(entries.drop_last(), name);
    }
}

proof fn lemma_lookup_push<T>(entries: Seq<(Seq<char>, T)>, x: (Seq<char>, T), name: Seq<char>)
    ensures
        lookup(entries.push(x), name) == if x.0 == name {
            Some(x.1)
        } else {
            lookup(entries, name)
        },
{
    assert(entries.push(x).drop_last() =~= entries);
}

proof fn lemma_lookup_update<T>(entries: Seq<(Seq<char>, T)>, p: int, x: (Seq<char>, T), name: Seq<char>)
    requires
        names_distinct(entries),
        0 <= p < entries.len(),
        entries[p].0 == x.0,
    ensures
        names_distinct(entries.update(p, x)),
        lookup(entries.update(p, x), name) == if x.0 == name {
            Some(x.1)
        } else {
            lookup(entries, name)
        },
{
    let u = entries.update(p, x);
    assert forall|i: int, j: int| 0 <= i < j < u.len() implies #[trigger] u[i].0 != #[trigger] u[j].0 by {
        assert(entries[i].0 != entries[j].0);
    }
    if x.0 == name {
        lemma_lookup_at(u, p);
    } else if exists|i: int| 0 <= i < entries.len() && #[trigger] entries[i].0 == name {
        let i = choose|i: int| 0 <= i < entries.len() && #[trigger] entries[i].0 == name;
        lemma_lookup_at(entries, i);
        assert(u[i] == entries[i]);
        lemma_lookup_at(u, i);
    } else {
        lemma_lookup_absent(entries, name);
        assert forall|i: int| 0 <= i < u.len() implies #[trigger] u[i].0 != name by {
            if i != p {
                assert(u[i] == entries[i]);
            }
        }
        lemma_lookup_absent(u, name);
    }
}

proof fn lemma_push_distinct<T>(entries: Seq<(Seq<char>, T)>, x: (Seq<char>, T))
    requires
        names_distinct(entries),
        forall|i: int| 0 <= i < entries.len() ==> #[trigger] entries[i].0 != x.0,
    ensures
        names_distinct(entries.push(x)),
{
    let u = entries.push(x);
    assert forall|i: int, j: int| 0 <= i < j < u.len() implies #[trigger] u[i].0 != #[trigger] u[j].0 by {
        if j < entries.len() {
            assert(entries[i].0 != entries[j].0);
        } else {
            assert(entries[i].0 != x.0);
        }
    }
}

/// `a - b`, or zero where `b` is larger.
pub open spec fn saturating_diff(a: u64, b: u64) -> u64 {
    if a >= b {
        (a - b) as u64
    } else {
        0
    }
}

/// What a sample reports of an interface since its previous sample: the bytes moved and
/// the milliseconds passed, or nothing on its first sample.
pub open spec fn since_previous_spec(
    previous: Option<(RawCounters, u64)>,
    now: RawCounters,
    now_ms: u64,
) -> Option<(u64, u64, u64)> {
    match previous {
        Some((c, t)) => Some(
            (
                saturating_diff(now.rx_bytes, c.rx_bytes),
                saturating_diff(now.tx_bytes, c.tx_bytes),
                saturating_diff(now_ms, t),
            ),
        ),
        None => None,
    }
}

/// The counters an interface is measured from: those of its first sample.
pub open spec fn baseline_or(baseline: Option<RawCounters>, now: RawCounters) -> RawCounters {
    match baseline {
        Some(b) => b,
        None => now,
    }
}

impl NetworkAccumulator {
    /// Each interface seen, with its counters at its first sample.
    pub closed spec fn baseline_spec(&self) -> Seq<(Seq<char>, RawCounters)> {
        self.session_baseline@.map_values(|b: (String, RawCounters)| (b.0@, b.1))
    }

    /// Each interface seen, with its counters and the time of its latest sample.
    pub closed spec fn previous_spec(&self) -> Seq<(Seq<char>, (RawCounters, u64))> {
        self.previous@.map_values(|p: (String, RawCounters, u64)| (p.0@, (p.1, p.2)))
    }

    /// Each interface has one entry of each kind.
    pub open spec fn wf(&self) -> bool {
        names_distinct(self.baseline_spec()) && names_distinct(self.previous_spec())
    }

    /// Nothing seen yet.
    pub fn new() -> (a: NetworkAccumulator)
        ensures
            a.wf(),
            a.baseline_spec() == Seq::<(Seq<char>, RawCounters)>::empty(),
            a.previous_spec() == Seq::<(Seq<char>, (RawCounters, u64))>::empty(),
    {
        let a = NetworkAccumulator { previous: Vec::new(), session_baseline: Vec::new() };
        assert(a.baseline_spec() =~= Seq::<(Seq<char>, RawCounters)>::empty());
        assert(a.previous_spec() =~= Seq::<(Seq<char>, (RawCounters, u64))>::empty());
        a
    }

    fn find_baseline(&self, name: &str) -> (r: Option<usize>)
        ensures
            match r {
                Some(i) => i < self.session_baseline.len() && self.baseline_spec()[i as int].0 == name@,
                None => forall|i: int|
                    0 <= i < self.baseline_spec().len() ==> #[trigger] self.baseline_spec()[i].0 != name@,
            },
    {
        let mut b: usize = 0;
        while b < self.session_baseline.len()
            invariant
                b <= self.session_baseline.len(),
                forall|i: int| 0 <= i < b ==> #[trigger] self.baseline_spec()[i].0 != name@,
            decreases self.session_baseline.len() - b,
        {
            if str_eq(self.session_baseline[b].0.as_str(), name) {
                return Some(b);
            }
            b = b + 1;
        }
        None
    }

    fn find_previous(&self, name: &str) -> (r: Option<usize>)
        ensures
            match r {
                Some(i) => i < self.previous.len() && self.previous_spec()[i as int].0 == name@,
                None => forall|i: int|
                    0 <= i < self.previous_spec().len() ==> #[trigger] self.previous_spec()[i].0 != name@,
            },
    {
        let mut p: usize = 0;
        while p < self.previous.len()
            invariant
                p <= self.previous.len(),
                forall|i: int| 0 <= i < p ==> #[trigger] self.previous_spec()[i].0 != name@,
            decreases self.previous.len() - p,
        {
            if str_eq(self.previous[p].0.as_str(), name) {
                return Some(p);
            }
            p = p + 1;
        }
        None
    }

    /// Records one interface's counters at `now_ms`, and says what it moved since its
    /// first sample and since its previous one.
    fn record(&mut self, name: &str, counters: RawCounters, now_ms: u64) -> (d: InterfaceDelta)
        requires
            old(self).wf(),
        ensures
            final(self).wf(),
            d.name@ == name@,
            d.rx_bytes_total == counters.rx_bytes,
            d.tx_bytes_total == counters.tx_bytes,
            d.rx_bytes_session == saturating_diff(
                counters.rx_bytes,
                baseline_or(lookup(old(self).baseline_spec(), name@), counters).rx_bytes,
            ),
            d.tx_bytes_session == saturating_diff(
                counters.tx_bytes,
                baseline_or(lookup(old(self).baseline_spec(), name@), counters).tx_bytes,
            ),
            d.since_previous == since_previous_spec(
                lookup(old(self).previous_spec(), name@),
                counters,
                now_ms,
            ),
            forall|n: Seq<char>|
                #[trigger] lookup(final(self).baseline_spec(), n) == if n == name@ {
                    Some(baseline_or(lookup(old(self).baseline_spec(), name@), counters))
                } else {
                    lookup(old(self).baseline_spec(), n)
                },
            forall|n: Seq<char>|
                #[trigger] lookup(final(self).previous_spec(), n) == if n == name@ {
                    Some((counters, now_ms))
                } else {
                    lookup(old(self).previous_spec(), n)
                },
    {
        let ghost b0 = self.baseline_spec();
        let ghost p0 = self.previous_spec();
        let base = match self.find_baseline(name) {
            Some(b) => {
                proof {
                    lemma_lookup_at(b0, b as int);
                }
                self.session_baseline[b].1
            },
            None => {
                proof {
                    lemma_lookup_absent(b0, name@);
                    lemma_push_distinct(b0, (name@, counters));
                }
                self.session_baseline.push((name.to_string(), counters));
                assert(self.baseline_spec() =~= b0.push((name@, counters)));
                counters
            },
        };
        assert forall|n: Seq<char>|
            #[trigger] lookup(self.baseline_spec(), n) == if n == name@ {
                Some(baseline_or(lookup(b0, name@), counters))
            } else {
                lookup(b0, n)
            } by {
            if self.baseline_spec() != b0 {
                lemma_lookup_push(b0, (name@, counters), n);
            } else {
                if n == name@ {
                    let b = choose|i: int| 0 <= i < b0.len() && #[trigger] b0[i].0 == name@;
                    if exists|i: int| 0 <= i < b0.len() && #[trigger] b0[i].0 == name@ {
                        lemma_lookup_at(b0, b);
                    }
                }
            }
        }
        assert(self.previous_spec() =~= p0);
        let since = match self.find_previous(name) {
            Some(p) => {
                proof {
                    lemma_lookup_at(p0, p as int);
                }
                let prev = self.previous[p].1;
                let t = self.previous[p].2;
                self.previous.set(p, (name.to_string(), counters, now_ms));
                proof {
                    assert(self.previous_spec() =~= p0.update(p as int, (name@, (counters, now_ms))));
                    assert forall|n: Seq<char>|
                        #[trigger] lookup(self.previous_spec(), n) == if n == name@ {
                            Some((counters, now_ms))
                        } else {
                            lookup(p0, n)
                        } by {
                        lemma_lookup_update(p0, p as int, (name@, (counters, now_ms)), n);
                    }
                    lemma_lookup_update(p0, p as int, (name@, (counters, now_ms)), name@);
                }
                Some(
                    (
                        counters.rx_bytes.saturating_sub(prev.rx_bytes),
                        counters.tx_bytes.saturating_sub(prev.tx_bytes),
                        now_ms.saturating_sub(t),
                    ),
                )
            },
            None => {
                proof {
                    lemma_lookup_absent(p0, name@);
                    lemma_push_distinct(p0, (name@, (counters, now_ms)));
                }
                self.previous.push((name.to_string(), counters, now_ms));
                proof {
                    assert(self.previous_spec() =~= p0.push((name@, (counters, now_ms))));
                    assert forall|n: Seq<char>|
                        #[trigger] lookup(self.previous_spec(), n) == if n == name@ {
                            Some((counters, now_ms))
                        } else {
                            lookup(p0, n)
                        } by {
                        lemma_lookup_push(p0, (name@, (counters, now_ms)), n);
                    }
                }
                None
            },
        };
        InterfaceDelta {
            name: name.to_string(),
            rx_bytes_total: counters.rx_bytes,
            tx_bytes_total: counters.tx_bytes,
            rx_bytes_session: counters.rx_bytes.saturating_sub(base.rx_bytes),
            tx_bytes_session: counters.tx_bytes.saturating_sub(base.tx_bytes),
            since_previous: since,
        }
    }

    /// One sample at `now_ms` of the counters of each interface (one entry per interface):
    /// per interface its totals, the bytes since its first sample (that sample's counters
    /// are kept from then on, and a difference below zero counts as zero), and the bytes
    /// and milliseconds since its previous sample, none on its first.
    pub fn sample(&mut self, raw: &Vec<(String, RawCounters)>, now_ms: u64) -> (out: Vec<InterfaceDelta>)
        requires
            old(self).wf(),
            forall|i: int, j: int| 0 <= i < j < raw.len() ==> #[trigger] raw@[i].0@ != #[trigger] raw@[j].0@,
        ensures
            final(self).wf(),
            out.len() == raw.len(),
            forall|k: int|
                0 <= k < raw.len() ==> {
                    let d = #[trigger] out@[k];
                    let n = raw@[k].0@;
                    let c = raw@[k].1;
                    let base = baseline_or(lookup(old(self).baseline_spec(), n), c);
                    &&& d.name@ == n
                    &&& d.rx_bytes_total == c.rx_bytes
                    &&& d.tx_bytes_total == c.tx_bytes
                    &&& d.rx_bytes_session == saturating_diff(c.rx_bytes, base.rx_bytes)
                    &&& d.tx_bytes_session == saturating_diff(c.tx_bytes, base.tx_bytes)
                    &&& d.since_previous == since_previous_spec(
                        lookup(old(self).previous_spec(), n),
                        c,
                        now_ms,
                    )
                    &&& lookup(final(self).baseline_spec(), n) == Some(base)
                    &&& lookup(final(self).previous_spec(), n) == Some((c, now_ms))
                },
            forall|n: Seq<char>|
                (forall|k: int| 0 <= k < raw.len() ==> #[trigger] raw@[k].0@ != n) ==> {
                    &&& #[trigger] lookup(final(self).baseline_spec(), n) == lookup(
                        old(self).baseline_spec(),
                        n,
                    )
                    &&& lookup(final(self).previous_spec(), n) == lookup(old(self).previous_spec(), n)
                },
    {
        let ghost b0 = self.baseline_spec();
        let ghost p0 = self.previous_spec();
        let mut out: Vec<InterfaceDelta> = Vec::new();
        let mut k: usize = 0;
        while k < raw.len()
            invariant
                k <= raw.len(),
                out.len() == k,
                self.wf(),
                forall|i: int, j: int| 0 <= i < j < raw.len() ==> #[trigger] raw@[i].0@ != #[trigger] raw@[j].0@,
                forall|j: int|
                    0 <= j < k ==> {
                        let d = #[trigger] out@[j];
                        let n = raw@[j].0@;
                        let c = raw@[j].1;
                        let base = baseline_or(lookup(b0, n), c);
                        &&& d.name@ == n
                        &&& d.rx_bytes_total == c.rx_bytes
                        &&& d.tx_bytes_total == c.tx_bytes
                        &&& d.rx_bytes_session == saturating_diff(c.rx_bytes, base.rx_bytes)
                        &&& d.tx_bytes_session == saturating_diff(c.tx_bytes, base.tx_bytes)
                        &&& d.since_previous == since_previous_spec(lookup(p0, n), c, now_ms)
                        &&& lookup(self.baseline_spec(), n) == Some(base)
                        &&& lookup(self.previous_spec(), n) == Some((c, now_ms))
                    },
                forall|n: Seq<char>|
                    (forall|j: int| 0 <= j < k ==> #[trigger] raw@[j].0@ != n) ==> {
                        &&& #[trigger] lookup(self.baseline_spec(), n) == lookup(b0, n)
                        &&& lookup(self.previous_spec(), n) == lookup(p0, n)
                    },
            decreases raw.len() - k,
        {
            let ghost nk = raw@[k as int].0@;
            let ghost b1 = self.baseline_spec();
            let ghost p1 = self.previous_spec();
            assert forall|j: int| 0 <= j < k implies #[trigger] raw@[j].0@ != nk by {
                assert(raw@[j].0@ != raw@[k as int].0@);
            }
            assert(lookup(b1, nk) == lookup(b0, nk));
            assert(lookup(p1, nk) == lookup(p0, nk));
            let d = self.record(raw[k].0.as_str(), raw[k].1, now_ms);
            out.push(d);
            proof {
                assert forall|j: int| 0 <= j < k implies raw@[j].0@ != nk && {
                    &&& lookup(self.baseline_spec(), #[trigger] raw@[j].0@) == lookup(b1, raw@[j].0@)
                    &&& lookup(self.previous_spec(), raw@[j].0@) == lookup(p1, raw@[j].0@)
                } by {
                    assert(raw@[j].0@ != raw@[k as int].0@);
                }
                assert(out@[k as int] == d);
            }
            k = k + 1;
        }
        out
    }
}

/// The totals and session amounts of all interfaces added up: (received total, sent
/// total, received this session, sent this session).
pub open spec fn aggregate_spec(d: Seq<InterfaceDelta>) -> (int, int, int, int)
    decreases d.len(),
{
    if d.len() == 0 {
        (0, 0, 0, 0)
    } else {
        let r = aggregate_spec(d.drop_last());
        let x = d.last();
        (
            r.0 + x.rx_bytes_total,
            r.1 + x.tx_bytes_total,
            r.2 + x.rx_bytes_session,
            r.3 + x.tx_bytes_session,
        )
    }
}

proof fn lemma_aggregate_grows(d: Seq<InterfaceDelta>, i: int)
    requires
        0 <= i <= d.len(),
    ensures
        0 <= aggregate_spec(d.take(i)).0 <= aggregate_spec(d).0,
        0 <= aggregate_spec(d.take(i)).1 <= aggregate_spec(d).1,
        0 <= aggregate_spec(d.take(i)).2 <= aggregate_spec(d).2,
        0 <= aggregate_spec(d.take(i)).3 <= aggregate_spec(d).3,
    decreases d.len() - i,
{
    lemma_aggregate_nonneg(d.take(i));
    if i < d.len() {
        assert(d.take(i + 1).drop_last() =~= d.take(i));
        lemma_aggregate_grows(d, i + 1);
    } else {
        assert(d.take(i) =~= d);
    }
}

proof fn lemma_aggregate_nonneg(d: Seq<InterfaceDelta>)
    ensures
        0 <= aggregate_spec(d).0,
        0 <= aggregate_spec(d).1,
        0 <= aggregate_spec(d).2,
        0 <= aggregate_spec(d).3,
    decreases d.len(),
{
    if d.len() > 0 {
        lemma_aggregate_nonneg(d.drop_last());
    }
}

/// The device-wide view: the interfaces' totals and session amounts added up; `None`
/// when a sum does not fit in 64 bits.
pub fn aggregate_counts(d: &Vec<InterfaceDelta>) -> (r: Option<(u64, u64, u64, u64)>)
    ensures
        match r {
            Some((a, b, c, e)) => (a as int, b as int, c as int, e as int) == aggregate_spec(d@),
            None => {
                ||| aggregate_spec(d@).0 > u64::MAX
                ||| aggregate_spec(d@).1 > u64::MAX
                ||| aggregate_spec(d@).2 > u64::MAX
                ||| aggregate_spec(d@).3 > u64::MAX
            },
        },
{
    let mut acc: (u64, u64, u64, u64) = (0, 0, 0, 0);
    let mut i: usize = 0;
    while i < d.len()
        invariant
            i <= d.len(),
            (acc.0 as int, acc.1 as int, acc.2 as int, acc.3 as int) == aggregate_spec(d@.take(i as int)),
        decreases d.len() - i,
    {
        assert(d@.take(i + 1).drop_last() =~= d@.take(i as int));
        proof {
            lemma_aggregate_grows(d@, i + 1);
        }
        let x = &d[i];
        let a = match acc.0.checked_add(x.rx_bytes_total) {
            Some(v) => v,
            None => return None,
        };
        let b = match acc.1.checked_add(x.tx_bytes_total) {
            Some(v) => v,
            None => return None,
        };
        let c = match acc.2.checked_add(x.rx_bytes_session) {
            Some(v) => v,
            None => return None,
        };
        let e = match acc.3.checked_add(x.tx_bytes_session) {
            Some(v) => v,
            None => return None,
        };
        acc = (a, b, c, e);
        i = i + 1;
    }
    assert(d@.take(d.len() as int) =~= d@);
    Some(acc)
}

/// Whether an interface is a loopback one, whose traffic is not counted.
pub fn is_loopback(name: &str) -> (r: bool)
    ensures
        r == "lo"@.is_prefix_of(name@),
{
    starts_with(name, "lo")
}

fn position_of(names: &Vec<String>, name: &str) -> (r: Option<usize>)
    ensures
        match r {
            Some(i) => i < names.len() && names@[i as int]@ == name@,
            None => forall|i: int| 0 <= i < names.len() ==> names@[i]@ != name@,
        },
{
    let mut i: usize = 0;
    while i < names.len()
        invariant
            i <= names.len(),
            forall|j: int| 0 <= j < i ==> names@[j]@ != name@,
        decreases names.len() - i,
    {
        if str_eq(names[i].as_str(), name) {
            return Some(i);
        }
        i = i + 1;
    }
    None
}

/// The received bytes of the entries of `entries` named `name`, added up.
pub open spec fn sum_rx(entries: Seq<(String, u64, u64)>, name: Seq<char>) -> int
    decreases entries.len(),
{
    if entries.len() == 0 {
        0
    } else {
        sum_rx(entries.drop_last(), name) + if entries.last().0@ == name {
            entries.last().1 as int
        } else {
            0
        }
    }
}

/// The sent bytes of the entries of `entries` named `name`, added up.
pub open spec fn sum_tx(entries: Seq<(String, u64, u64)>, name: Seq<char>) -> int
    decreases entries.len(),
{
    if entries.len() == 0 {
        0
    } else {
        sum_tx(entries.drop_last(), name) + if entries.last().0@ == name {
            entries.last().2 as int
        } else {
            0
        }
    }
}

proof fn lemma_sum_step(entries: Seq<(String, u64, u64)>, i: int, name: Seq<char>)
    requires
        0 <= i < entries.len(),
    ensures
        sum_rx(entries.take(i + 1), name) == sum_rx(entries.take(i), name) + if entries[i].0@ == name {
            entries[i].1 as int
        } else {
            0
        },
        sum_tx(entries.take(i + 1), name) == sum_tx(entries.take(i), name) + if entries[i].0@ == name {
            entries[i].2 as int
        } else {
            0
        },
{
    assert(entries.take(i + 1).drop_last() =~= entries.take(i));
}

proof fn lemma_sums_grow(entries: Seq<(String, u64, u64)>, i: int, name: Seq<char>)
    requires
        0 <= i <= entries.len(),
    ensures
        0 <= sum_rx(entries.take(i), name) <= sum_rx(entries, name),
        0 <= sum_tx(entries.take(i), name) <= sum_tx(entries, name),
    decreases entries.len() - i,
{
    lemma_sums_nonneg(entries.take(i), name);
    if i == entries.len() {
        assert(entries.take(i) =~= entries);
    } else {
        lemma_sum_step(entries, i, name);
        lemma_sums_grow(entries, i + 1, name);
    }
}

proof fn lemma_sums_nonneg(entries: Seq<(String, u64, u64)>, name: Seq<char>)
    ensures
        0 <= sum_rx(entries, name),
        0 <= sum_tx(entries, name),
    decreases entries.len(),
{
    if entries.len() > 0 {
        lemma_sums_nonneg(entries.drop_last(), name);
    }
}

/// `counters` is what the link entries `entries` add up to: one entry per interface that
/// is not a loopback one, each with the sums of that interface's bytes.
pub open spec fn link_result(counters: Seq<(String, RawCounters)>, entries: Seq<(String, u64, u64)>) -> bool {
    &&& forall|i: int, j: int|
        0 <= i < j < counters.len() ==> #[trigger] counters[i].0@ != #[trigger] counters[j].0@
    &&& forall|k: int|
        0 <= k < counters.len() ==> {
            &&& !"lo"@.is_prefix_of(#[trigger] counters[k].0@)
            &&& counters[k].1.rx_bytes == sum_rx(entries, counters[k].0@)
            &&& counters[k].1.tx_bytes == sum_tx(entries, counters[k].0@)
            &&& exists|j: int| 0 <= j < entries.len() && #[trigger] entries[j].0@ == counters[k].0@
        }
    &&& forall|j: int|
        0 <= j < entries.len() && !"lo"@.is_prefix_of(#[trigger] entries[j].0@) ==> exists|k: int|
            0 <= k < counters.len() && #[trigger] counters[k].0@ == entries[j].0@
}

/// The counters per interface from the kernel's link entries (name, received, sent):
/// loopback interfaces left out, one entry per other interface named in `entries`, with
/// the bytes of all its entries added up; `None` when such a sum does not fit in 64 bits.
#[verifier::rlimit(60)]
#[verifier::spinoff_prover]
pub fn link_counters(entries: &Vec<(String, u64, u64)>) -> (out: Option<Vec<(String, RawCounters)>>)
    ensures
        match out {
            Some(v) => link_result(v@, entries@),
            None => exists|j: int|
                0 <= j < entries.len() && !"lo"@.is_prefix_of(#[trigger] entries@[j].0@) && (sum_rx(
                    entries@,
                    entries@[j].0@,
                ) > u64::MAX || sum_tx(entries@, entries@[j].0@) > u64::MAX),
        },
{
    let ghost e = entries@;
    let mut out: Vec<(String, RawCounters)> = Vec::new();
    let mut names: Vec<String> = Vec::new();
    let mut i: usize = 0;
    while i < entries.len()
        invariant
            e == entries@,
            i <= entries.len(),
            names.len() == out.len(),
            forall|k: int| 0 <= k < out.len() ==> #[trigger] names@[k]@ == out@[k].0@,
            forall|a: int, b: int| 0 <= a < b < out.len() ==> #[trigger] out@[a].0@ != #[trigger] out@[b].0@,
            forall|k: int|
                0 <= k < out.len() ==> {
                    &&& !"lo"@.is_prefix_of(#[trigger] out@[k].0@)
                    &&& out@[k].1.rx_bytes == sum_rx(e.take(i as int), out@[k].0@)
                    &&& out@[k].1.tx_bytes == sum_tx(e.take(i as int), out@[k].0@)
                    &&& exists|j: int| 0 <= j < i && #[trigger] e[j].0@ == out@[k].0@
                },
            forall|j: int|
                0 <= j < i && !"lo"@.is_prefix_of(#[trigger] e[j].0@) ==> exists|k: int|
                    0 <= k < out.len() && #[trigger] out@[k].0@ == e[j].0@,
            forall|n: Seq<char>|
                (forall|k: int| 0 <= k < out.len() ==> #[trigger] out@[k].0@ != n) && !"lo"@.is_prefix_of(n) ==> #[trigger] sum_rx(
                    e.take(i as int),
                    n,
                ) == 0 && sum_tx(e.take(i as int), n) == 0,
        decreases entries.len() - i,
    {
        let ghost pre = e.take(i as int);
        let ghost next = e.take(i + 1);
        assert(next.drop_last() =~= pre);
        let (name, rx, tx) = (&entries[i].0, entries[i].1, entries[i].2);
        assert(next.last() == e[i as int]);
        if !is_loopback(name.as_str()) {
            match position_of(&names, name.as_str()) {
                Some(p) => {
                    let c = out[p].1;
                    let new_rx = match c.rx_bytes.checked_add(rx) {
                        Some(v) => v,
                        None => {
                            proof {
                                lemma_sums_grow(e, i + 1, name@);
                            }
                            return None;
                        },
                    };
                    let new_tx = match c.tx_bytes.checked_add(tx) {
                        Some(v) => v,
                        None => {
                            proof {
                                lemma_sums_grow(e, i + 1, name@);
                            }
                            return None;
                        },
                    };
                    let n = out[p].0.clone();
                    let ghost old_out = out@;
                    out.set(p, (n, RawCounters { rx_bytes: new_rx, tx_bytes: new_tx }));
                    proof {
                        assert forall|k: int| 0 <= k < out.len() implies {
                            &&& !"lo"@.is_prefix_of(#[trigger] out@[k].0@)
                            &&& out@[k].1.rx_bytes == sum_rx(next, out@[k].0@)
                            &&& out@[k].1.tx_bytes == sum_tx(next, out@[k].0@)
                            &&& exists|j: int| 0 <= j < i + 1 && #[trigger] e[j].0@ == out@[k].0@
                        } by {
                            assert(old_out[k].0@ == out@[k].0@);
                            lemma_sum_step(e, i as int, out@[k].0@);
                            let j = choose|j: int| 0 <= j < i && #[trigger] e[j].0@ == old_out[k].0@;
                            assert(0 <= j < i + 1 && e[j].0@ == out@[k].0@);
                        }
                        assert forall|j: int|
                            0 <= j < i + 1 && !"lo"@.is_prefix_of(#[trigger] e[j].0@) implies exists|k: int|
                                0 <= k < out.len() && #[trigger] out@[k].0@ == e[j].0@ by {
                            if j == i {
                                assert(out@[p as int].0@ == e[j].0@);
                            } else {
                                let k = choose|k: int| 0 <= k < old_out.len() && #[trigger] old_out[k].0@ == e[j].0@;
                                assert(out@[k].0@ == e[j].0@);
                            }
                        }
                        assert forall|n: Seq<char>|
                            (forall|k: int| 0 <= k < out.len() ==> #[trigger] out@[k].0@ != n) && !"lo"@.is_prefix_of(n) implies #[trigger] sum_rx(
                                next,
                                n,
                            ) == 0 && sum_tx(next, n) == 0 by {
                            assert forall|k: int| 0 <= k < old_out.len() implies #[trigger] old_out[k].0@ != n by {
                                assert(out@[k].0@ != n);
                            }
                            assert(out@[p as int].0@ != n);
                            lemma_sum_step(e, i as int, n);
                            assert(sum_rx(pre, n) == 0 && sum_tx(pre, n) == 0);
                        }
                    }
                },
                None => {
                    let ghost old_out = out@;
                    proof {
                        assert forall|k: int| 0 <= k < old_out.len() implies #[trigger] old_out[k].0@ != name@ by {
                            assert(names@[k]@ != name@);
                        }
                    }
                    out.push((name.clone(), RawCounters { rx_bytes: rx, tx_bytes: tx }));
                    names.push(name.clone());
                    proof {
                        assert forall|k: int| 0 <= k < out.len() implies {
                            &&& !"lo"@.is_prefix_of(#[trigger] out@[k].0@)
                            &&& out@[k].1.rx_bytes == sum_rx(next, out@[k].0@)
                            &&& out@[k].1.tx_bytes == sum_tx(next, out@[k].0@)
                            &&& exists|j: int| 0 <= j < i + 1 && #[trigger] e[j].0@ == out@[k].0@
                        } by {
                            lemma_sum_step(e, i as int, out@[k].0@);
                            if k < old_out.len() {
                                assert(old_out[k] == out@[k]);
                                assert(old_out[k].0@ != name@);
                                let j = choose|j: int| 0 <= j < i && #[trigger] e[j].0@ == old_out[k].0@;
                                assert(0 <= j < i + 1 && e[j].0@ == out@[k].0@);
                            } else {
                                assert(e[i as int].0@ == out@[k].0@);
                                assert(sum_rx(pre, name@) == 0 && sum_tx(pre, name@) == 0);
                            }
                        }
                        assert forall|j: int|
                            0 <= j < i + 1 && !"lo"@.is_prefix_of(#[trigger] e[j].0@) implies exists|k: int|
                                0 <= k < out.len() && #[trigger] out@[k].0@ == e[j].0@ by {
                            if j == i {
                                assert(out@[old_out.len() as int].0@ == e[j].0@);
                            } else {
                                let k = choose|k: int| 0 <= k < old_out.len() && #[trigger] old_out[k].0@ == e[j].0@;
                                assert(out@[k].0@ == e[j].0@);
                            }
                        }
                        assert forall|n: Seq<char>|
                            (forall|k: int| 0 <= k < out.len() ==> #[trigger] out@[k].0@ != n) && !"lo"@.is_prefix_of(n) implies #[trigger] sum_rx(
                                next,
                                n,
                            ) == 0 && sum_tx(next, n) == 0 by {
                            assert forall|k: int| 0 <= k < old_out.len() implies #[trigger] old_out[k].0@ != n by {
                                assert(out@[k].0@ != n);
                            }
                            assert(out@[old_out.len() as int].0@ != n);
                            lemma_sum_step(e, i as int, n);
                            assert(sum_rx(pre, n) == 0 && sum_tx(pre, n) == 0);
                        }
                    }
                },
            }
        } else {
            proof {
                assert forall|k: int| 0 <= k < out.len() implies #[trigger] out@[k].0@ != e[i as int].0@ by {}
                assert forall|k: int| 0 <= k < out.len() implies {
                    &&& !"lo"@.is_prefix_of(#[trigger] out@[k].0@)
                    &&& out@[k].1.rx_bytes == sum_rx(next, out@[k].0@)
                    &&& out@[k].1.tx_bytes == sum_tx(next, out@[k].0@)
                    &&& exists|j: int| 0 <= j < i + 1 && #[trigger] e[j].0@ == out@[k].0@
                } by {
                    lemma_sum_step(e, i as int, out@[k].0@);
                    let j = choose|j: int| 0 <= j < i && #[trigger] e[j].0@ == out@[k].0@;
                    assert(0 <= j < i + 1 && e[j].0@ == out@[k].0@);
                }
                assert forall|n: Seq<char>|
                    (forall|k: int| 0 <= k < out.len() ==> #[trigger] out@[k].0@ != n) && !"lo"@.is_prefix_of(n) implies #[trigger] sum_rx(
                        next,
                        n,
                    ) == 0 && sum_tx(next, n) == 0 by {
                    lemma_sum_step(e, i as int, n);
                }
            }
        }
        i = i + 1;
    }
    proof {
        assert(e.take(i as int) =~= e);
        assert(link_result(out@, e));
    }
    Some(out)
}

/// The static CPU facts read once.
pub struct CpuStaticInfo {
    pub brand: Option<String>,
    pub physical_cores: Option<u64>,
    pub logical_cores: Option<u64>,
    pub l1i_cache_bytes: Option<u64>,
    pub macos_version: Option<String>,
}

/// Disk throughput counters.
pub struct DiskIoReading {
    pub read_bytes_total: Option<u64>,
    pub write_bytes_total: Option<u64>,
}

/// Disk throughput: not available (it needs a walk of the I/O registry), so both
/// counters are unknown.
pub fn read_io() -> (r: DiskIoReading)
    ensures
        r.read_bytes_total is None,
        r.write_bytes_total is None,
{
    DiskIoReading { read_bytes_total: None, write_bytes_total: None }
}

/// Static GPU facts.
pub struct GpuStaticInfo {
    pub model_name: Option<String>,
    pub core_count: Option<u32>,
    pub vram_total_bytes: Option<u64>,
}

/// Static GPU facts: none are available (no public interface on these machines).
pub fn read_static_info() -> (r: GpuStaticInfo)
    ensures
        r.model_name is None,
        r.core_count is None,
        r.vram_total_bytes is None,
{
    GpuStaticInfo { model_name: None, core_count: None, vram_total_bytes: None }
}

} // verus!
