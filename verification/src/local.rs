//! Derived values of the local snapshot collector.
//!
//! The application reads raw OS counters each tick and hands them in as
//! plain samples; the functions here compute everything that is derived
//! from them: usage percentages, per-disk rows, the rolling network
//! rate, and the sorted, truncated process list.

use vstd::prelude::*;
use crate::models::{
    CpuInfo, DiskInfo, MemoryInfo, NetworkInfo, NetworkInterface, ProcessInfo, ProcessStateKind,
    SystemStaticInfo,
};
use crate::numbers::{spec_pct_centi, pct_centi, sat64};

verus! {

/// Raw per-disk counters as the OS reports them.
pub struct DiskSample {
    pub name: String,
    pub mount_point: String,
    pub file_system: String,
    pub total_bytes: u64,
    pub available_bytes: u64,
}

/// Raw cumulative per-interface byte counters.
pub struct NetIfaceSample {
    pub name: String,
    pub total_rx_bytes: u64,
    pub total_tx_bytes: u64,
}

/// Raw per-process counters as the OS reports them.
pub struct ProcessSample {
    pub pid: u32,
    pub name: String,
    pub cpu_percent_centi: u32,
    pub memory_bytes: u64,
    pub status: ProcessStateKind,
    pub user: Option<String>,
    pub command: String,
    pub start_time: i64,
}

/// Memory and swap figures in kilobytes and hundredths of a percent;
/// the swap percentage is zero when there is no swap at all.
pub fn collect_memory_info(
    total_bytes: u64,
    used_bytes: u64,
    free_bytes: u64,
    swap_total_bytes: u64,
    swap_used_bytes: u64,
    swap_free_bytes: u64,
) -> (r: MemoryInfo)
    requires
        total_bytes > 0,
    ensures
        r.total_kb == total_bytes / 1024,
        r.used_kb == used_bytes / 1024,
        r.free_kb == free_bytes / 1024,
        r.used_percent_centi == spec_pct_centi(used_bytes as nat, total_bytes as nat),
        r.swap_total_kb == swap_total_bytes / 1024,
        r.swap_used_kb == swap_used_bytes / 1024,
        r.swap_free_kb == swap_free_bytes / 1024,
        r.swap_used_percent_centi == spec_pct_centi(swap_used_bytes as nat, swap_total_bytes as nat),
{
    MemoryInfo {
        total_kb: total_bytes / 1024,
        used_kb: used_bytes / 1024,
        free_kb: free_bytes / 1024,
        used_percent_centi: pct_centi(used_bytes, total_bytes),
        swap_total_kb: swap_total_bytes / 1024,
        swap_used_kb: swap_used_bytes / 1024,
        swap_free_kb: swap_free_bytes / 1024,
        swap_used_percent_centi: pct_centi(swap_used_bytes, swap_total_bytes),
    }
}

/// The snapshot row for one disk; `None` for a disk that reports zero
/// total capacity, which is excluded from the result.
pub open spec fn spec_disk_row(d: DiskSample) -> Option<DiskInfo> {
    if d.total_bytes == 0 {
        None
    } else {
        let used: u64 = if d.available_bytes <= d.total_bytes {
            (d.total_bytes - d.available_bytes) as u64
        } else {
            0
        };
        Some(
            (DiskInfo {
                name: d.name,
                mount_point: d.mount_point,
                file_system: d.file_system,
                total_bytes: d.total_bytes,
                used_bytes: used,
                free_bytes: d.available_bytes,
                used_percent_centi: spec_pct_centi(used as nat, d.total_bytes as nat),
            }),
        )
    }
}

pub open spec fn spec_disks(s: Seq<DiskSample>) -> Seq<DiskInfo>
    decreases s.len(),
{
    if s.len() == 0 {
        Seq::empty()
    } else {
        spec_disks(s.drop_last()) + match spec_disk_row(s.last()) {
            Some(row) => seq![row],
            None => Seq::empty(),
        }
    }
}

/// The per-disk usage rows, with zero-capacity disks left out and the
/// used space saturating at zero if the counters disagree.
pub fn collect_disk_info(samples: Vec<DiskSample>) -> (r: Vec<DiskInfo>)
    ensures
        r@ == spec_disks(samples@),
{
    let ghost orig = samples@;
    let mut pending = samples;
    let mut r: Vec<DiskInfo> = Vec::new();
    while pending.len() > 0
        invariant
            pending@.len() <= orig.len(),
            orig.skip(orig.len() - pending@.len()) =~= pending@,
            r@ == spec_disks(orig.take(orig.len() - pending@.len())),
        decreases pending@.len(),
    {
        let ghost k = orig.len() - pending@.len();
        let d = pending.remove(0);
        proof {
            assert(d == orig[k]);
            assert(orig.take(k + 1).drop_last() =~= orig.take(k));
            assert(orig.take(k + 1).last() == orig[k]);
            assert(orig.skip(k).skip(1) =~= orig.skip(k + 1));
        }
        if d.total_bytes > 0 {
            let used: u64 = if d.available_bytes <= d.total_bytes {
                d.total_bytes - d.available_bytes
            } else {
                0
            };
            let pct = pct_centi(used, d.total_bytes);
            r.push(
                DiskInfo {
                    name: d.name,
                    mount_point: d.mount_point,
                    file_system: d.file_system,
                    total_bytes: d.total_bytes,
                    used_bytes: used,
                    free_bytes: d.available_bytes,
                    used_percent_centi: pct,
                },
            );
        }
    }
    proof {
        assert(orig.take(orig.len() as int) =~= orig);
    }
    r
}

/// Sum of the cumulative received-byte counters.
pub open spec fn sum_rx(s: Seq<NetIfaceSample>) -> nat
    decreases s.len(),
{
    if s.len() == 0 {
        0
    } else {
        sum_rx(s.drop_last()) + s.last().total_rx_bytes as nat
    }
}

/// Sum of the cumulative transmitted-byte counters.
pub open spec fn sum_tx(s: Seq<NetIfaceSample>) -> nat
    decreases s.len(),
{
    if s.len() == 0 {
        0
    } else {
        sum_tx(s.drop_last()) + s.last().total_tx_bytes as nat
    }
}

/// The two rolling byte totals carried across cycles to derive the
/// network rate from successive samples.
pub struct NetRateTracker {
    pub last_rx_bytes: u64,
    pub last_tx_bytes: u64,
    pub first_run: bool,
}

impl NetRateTracker {
    /// A tracker with no baseline yet: the first observed cycle will
    /// report a zero rate whatever the counters hold.
    pub fn new() -> (r: Self)
        ensures
            r.first_run,
            r.last_rx_bytes == 0,
            r.last_tx_bytes == 0,
    {
        NetRateTracker { last_rx_bytes: 0, last_tx_bytes: 0, first_run: true }
    }

    /// One cycle's network summary. The first observation after start
    /// reports a zero delta regardless of the counter values; every
    /// later one reports the counter delta against the previous cycle,
    /// saturating at zero if a counter reset. The running totals are
    /// reinitialised either way.
    pub fn observe(&mut self, samples: Vec<NetIfaceSample>) -> (r: NetworkInfo)
        ensures
            ({
                let cur_rx = sat64(sum_rx(samples@));
                let cur_tx = sat64(sum_tx(samples@));
                &&& r.total_rx_bytes == cur_rx
                &&& r.total_tx_bytes == cur_tx
                &&& r.rx_delta_bytes == (if old(self).first_run {
                    0u64
                } else if cur_rx >= old(self).last_rx_bytes {
                    (cur_rx - old(self).last_rx_bytes) as u64
                } else {
                    0u64
                })
                &&& r.tx_delta_bytes == (if old(self).first_run {
                    0u64
                } else if cur_tx >= old(self).last_tx_bytes {
                    (cur_tx - old(self).last_tx_bytes) as u64
                } else {
                    0u64
                })
                &&& final(self).last_rx_bytes == cur_rx
                &&& final(self).last_tx_bytes == cur_tx
                &&& !final(self).first_run
                &&& r.interfaces@.len() == samples@.len()
                &&& forall|i: int|
                    0 <= i < samples@.len() ==> {
                        &&& (#[trigger] r.interfaces@[i]).name == samples@[i].name
                        &&& r.interfaces@[i].ipv4@.len() == 0
                        &&& r.interfaces@[i].ipv6@.len() == 0
                    }
            }),
    {
        let ghost orig = samples@;
        let mut pending = samples;
        let mut interfaces: Vec<NetworkInterface> = Vec::new();
        let mut rx: u64 = 0;
        let mut tx: u64 = 0;
        while pending.len() > 0
            invariant
                pending@.len() <= orig.len(),
                orig.skip(orig.len() - pending@.len()) =~= pending@,
                rx == sat64(sum_rx(orig.take(orig.len() - pending@.len()))),
                tx == sat64(sum_tx(orig.take(orig.len() - pending@.len()))),
                interfaces@.len() == orig.len() - pending@.len(),
                forall|i: int|
                    0 <= i < interfaces@.len() ==> {
                        &&& (#[trigger] interfaces@[i]).name == orig[i].name
                        &&& interfaces@[i].ipv4@.len() == 0
                        &&& interfaces@[i].ipv6@.len() == 0
                    },
            decreases pending@.len(),
        {
            let ghost k = orig.len() - pending@.len();
            let s = pending.remove(0);
            proof {
                assert(s == orig[k]);
                assert(orig.take(k + 1).drop_last() =~= orig.take(k));
                assert(orig.take(k + 1).last() == orig[k]);
                assert(orig.skip(k).skip(1) =~= orig.skip(k + 1));
            }
            if rx <= u64::MAX - s.total_rx_bytes {
                rx = rx + s.total_rx_bytes;
            } else {
                rx = u64::MAX;
            }
            if tx <= u64::MAX - s.total_tx_bytes {
                tx = tx + s.total_tx_bytes;
            } else {
                tx = u64::MAX;
            }
            interfaces.push(NetworkInterface { name: s.name, ipv4: Vec::new(), ipv6: Vec::new() });
        }
        proof {
            assert(orig.take(orig.len() as int) =~= orig);
        }
        let rx_delta: u64 = if self.first_run {
            0
        } else if rx >= self.last_rx_bytes {
            rx - self.last_rx_bytes
        } else {
            0
        };
        let tx_delta: u64 = if self.first_run {
            0
        } else if tx >= self.last_tx_bytes {
            tx - self.last_tx_bytes
        } else {
            0
        };
        self.last_rx_bytes = rx;
        self.last_tx_bytes = tx;
        self.first_run = false;
        NetworkInfo {
            interfaces,
            rx_delta_bytes: rx_delta,
            tx_delta_bytes: tx_delta,
            total_rx_bytes: rx,
            total_tx_bytes: tx,
        }
    }
}

/// The snapshot row computed from one process sample.
pub open spec fn spec_proc_row(p: ProcessSample, total_memory_bytes: u64) -> ProcessInfo {
    ProcessInfo {
        pid: p.pid,
        name: p.name,
        cpu_percent_centi: p.cpu_percent_centi,
        memory_percent_centi: spec_pct_centi(p.memory_bytes as nat, total_memory_bytes as nat),
        memory_bytes: p.memory_bytes,
        status: p.status,
        user: p.user,
        command: p.command,
        start_time: Some(p.start_time),
    }
}

pub open spec fn spec_proc_rows(s: Seq<ProcessSample>, total_memory_bytes: u64) -> Seq<ProcessInfo>
    decreases s.len(),
{
    if s.len() == 0 {
        Seq::empty()
    } else {
        spec_proc_rows(s.drop_last(), total_memory_bytes).push(
            spec_proc_row(s.last(), total_memory_bytes),
        )
    }
}

/// `x` inserted into `s` behind every row with at least its CPU share,
/// keeping a descending list descending and insertion stable.
pub open spec fn spec_insert_desc(x: ProcessInfo, s: Seq<ProcessInfo>) -> Seq<ProcessInfo>
    decreases s.len(),
{
    if s.len() == 0 {
        seq![x]
    } else if s[0].cpu_percent_centi >= x.cpu_percent_centi {
        seq![s[0]] + spec_insert_desc(x, s.skip(1))
    } else {
        seq![x] + s
    }
}

/// `s` sorted by CPU share, highest first, equal rows keeping their
/// original order.
pub open spec fn spec_sort_desc(s: Seq<ProcessInfo>) -> Seq<ProcessInfo>
    decreases s.len(),
{
    if s.len() == 0 {
        Seq::empty()
    } else {
        spec_insert_desc(s.last(), spec_sort_desc(s.drop_last()))
    }
}

pub open spec fn desc_by_cpu(s: Seq<ProcessInfo>) -> bool {
    forall|i: int, j: int|
        0 <= i < j < s.len() ==> (#[trigger] s[i]).cpu_percent_centi >= (
        #[trigger] s[j]).cpu_percent_centi
}

proof fn lemma_insert_desc_sorted(x: ProcessInfo, s: Seq<ProcessInfo>)
    requires
        desc_by_cpu(s),
    ensures
        desc_by_cpu(spec_insert_desc(x, s)),
        spec_insert_desc(x, s).len() == s.len() + 1,
        forall|i: int|
            0 <= i < spec_insert_desc(x, s).len() ==> ((#[trigger] spec_insert_desc(x, s)[i]) == x
                || exists|j: int| 0 <= j < s.len() && spec_insert_desc(x, s)[i] == s[j]),
    decreases s.len(),
{
    if s.len() == 0 {
    } else if s[0].cpu_percent_centi >= x.cpu_percent_centi {
        assert(desc_by_cpu(s.skip(1))) by {
            assert(forall|i: int, j: int|
                0 <= i < j < s.skip(1).len() ==> (#[trigger] s.skip(1)[i]).cpu_percent_centi >= (
                #[trigger] s.skip(1)[j]).cpu_percent_centi);
        }
        lemma_insert_desc_sorted(x, s.skip(1));
        let r = seq![s[0]] + spec_insert_desc(x, s.skip(1));
        assert forall|i: int, j: int| 0 <= i < j < r.len() implies (
        #[trigger] r[i]).cpu_percent_centi >= (#[trigger] r[j]).cpu_percent_centi by {
            if i > 0 {
                assert(r[i] == spec_insert_desc(x, s.skip(1))[i - 1]);
                assert(r[j] == spec_insert_desc(x, s.skip(1))[j - 1]);
            } else {
                assert(r[j] == spec_insert_desc(x, s.skip(1))[j - 1]);
                let rj = spec_insert_desc(x, s.skip(1))[j - 1];
                if rj == x {
                } else {
                    let jj = choose|jj: int|
                        0 <= jj < s.skip(1).len() && spec_insert_desc(x, s.skip(1))[j - 1] == s.skip(
                            1,
                        )[jj];
                    assert(s.skip(1)[jj] == s[jj + 1]);
                }
            }
        }
        assert forall|i: int| 0 <= i < r.len() implies ((#[trigger] r[i]) == x || exists|j: int|
            0 <= j < s.len() && r[i] == s[j]) by {
            if i == 0 {
                assert(r[0] == s[0]);
            } else {
                let y = spec_insert_desc(x, s.skip(1))[i - 1];
                assert(r[i] == y);
                if y == x {
                } else {
                    let jj = choose|jj: int| 0 <= jj < s.skip(1).len() && y == s.skip(1)[jj];
                    assert(y == s[jj + 1]);
                }
            }
        }
    } else {
        let r = seq![x] + s;
        assert forall|i: int| 0 <= i < r.len() implies ((#[trigger] r[i]) == x || exists|j: int|
            0 <= j < s.len() && r[i] == s[j]) by {
            if i > 0 {
                assert(r[i] == s[i - 1]);
            }
        }
    }
}

/// The sorted process list is descending by CPU share.
pub proof fn lemma_sort_desc_sorted(s: Seq<ProcessInfo>)
    ensures
        desc_by_cpu(spec_sort_desc(s)),
        spec_sort_desc(s).len() == s.len(),
    decreases s.len(),
{
    if s.len() > 0 {
        lemma_sort_desc_sorted(s.drop_last());
        lemma_insert_desc_sorted(s.last(), spec_sort_desc(s.drop_last()));
    }
}

/// Insert one row into a vector kept descending by CPU share.
fn insert_desc(r: &mut Vec<ProcessInfo>, x: ProcessInfo)
    ensures
        final(r)@ == spec_insert_desc(x, old(r)@),
{
    let mut pos: usize = 0;
    proof {
        assert(r@.skip(0) =~= r@);
        assert(r@.take(0) + spec_insert_desc(x, r@.skip(0)) =~= spec_insert_desc(x, r@));
    }
    while pos < r.len() && r[pos].cpu_percent_centi >= x.cpu_percent_centi
        invariant
            pos <= r@.len(),
            spec_insert_desc(x, r@) == r@.take(pos as int) + spec_insert_desc(
                x,
                r@.skip(pos as int),
            ),
            forall|i: int| 0 <= i < pos ==> (#[trigger] r@[i]).cpu_percent_centi
                >= x.cpu_percent_centi,
        decreases r@.len() - pos,
    {
        proof {
            let tail = r@.skip(pos as int);
            assert(tail[0] == r@[pos as int]);
            assert(tail.skip(1) =~= r@.skip(pos + 1));
            assert(spec_insert_desc(x, tail) == seq![tail[0]] + spec_insert_desc(x, tail.skip(1)));
            assert(r@.take(pos as int) + (seq![tail[0]] + spec_insert_desc(x, tail.skip(1)))
                =~= r@.take(pos + 1) + spec_insert_desc(x, r@.skip(pos + 1)));
        }
        pos = pos + 1;
    }
    proof {
        let tail = r@.skip(pos as int);
        if pos < r@.len() {
            assert(tail[0] == r@[pos as int]);
            assert(spec_insert_desc(x, tail) == seq![x] + tail);
        }
        assert(r@.take(pos as int) + (seq![x] + r@.skip(pos as int)) =~= r@.insert(pos as int, x));
        if pos == r@.len() {
            assert(tail =~= Seq::<ProcessInfo>::empty());
            assert(spec_insert_desc(x, tail) == seq![x]);
            assert(r@.take(pos as int) + seq![x] =~= r@.insert(pos as int, x));
        }
    }
    r.insert(pos, x);
}

/// The process list of one snapshot: each sample's derived row, sorted
/// descending by CPU share (stably) and truncated to `max_processes`.
pub fn collect_process_info(
    samples: Vec<ProcessSample>,
    max_processes: usize,
    total_memory_bytes: u64,
) -> (r: Vec<ProcessInfo>)
    ensures
        r@ == spec_sort_desc(spec_proc_rows(samples@, total_memory_bytes)).take(
            if samples@.len() <= max_processes {
                samples@.len() as int
            } else {
                max_processes as int
            },
        ),
        desc_by_cpu(r@),
{
    let ghost orig = samples@;
    let mut pending = samples;
    let mut sorted: Vec<ProcessInfo> = Vec::new();
    while pending.len() > 0
        invariant
            pending@.len() <= orig.len(),
            orig.skip(orig.len() - pending@.len()) =~= pending@,
            sorted@ == spec_sort_desc(
                spec_proc_rows(orig.take(orig.len() - pending@.len()), total_memory_bytes),
            ),
        decreases pending@.len(),
    {
        let ghost k = orig.len() - pending@.len();
        let p = pending.remove(0);
        proof {
            assert(p == orig[k]);
            assert(orig.take(k + 1).drop_last() =~= orig.take(k));
            assert(orig.take(k + 1).last() == orig[k]);
            assert(orig.skip(k).skip(1) =~= orig.skip(k + 1));
            assert(spec_proc_rows(orig.take(k + 1), total_memory_bytes).drop_last()
                =~= spec_proc_rows(orig.take(k), total_memory_bytes));
        }
        let pct = pct_centi(p.memory_bytes, total_memory_bytes);
        let row = ProcessInfo {
            pid: p.pid,
            name: p.name,
            cpu_percent_centi: p.cpu_percent_centi,
            memory_percent_centi: pct,
            memory_bytes: p.memory_bytes,
            status: p.status,
            user: p.user,
            command: p.command,
            start_time: Some(p.start_time),
        };
        insert_desc(&mut sorted, row);
    }
    proof {
        assert(orig.take(orig.len() as int) =~= orig);
        lemma_sort_desc_sorted(spec_proc_rows(orig, total_memory_bytes));
        lemma_proc_rows_len(orig, total_memory_bytes);
    }
    sorted.truncate(max_processes);
    proof {
        let full = spec_sort_desc(spec_proc_rows(orig, total_memory_bytes));
        if max_processes as int <= full.len() {
            assert(full.subrange(0, max_processes as int) =~= full.take(max_processes as int));
        } else {
            assert(full =~= full.take(full.len() as int));
        }
        assert(desc_by_cpu(sorted@));
    }
    sorted
}

proof fn lemma_proc_rows_len(s: Seq<ProcessSample>, total_memory_bytes: u64)
    ensures
        spec_proc_rows(s, total_memory_bytes).len() == s.len(),
    decreases s.len(),
{
    if s.len() > 0 {
        lemma_proc_rows_len(s.drop_last(), total_memory_bytes);
    }
}

/// A CPU summary assembled from the aggregate share, the per-core
/// shares, and whatever the sensors reported.
pub fn assemble_cpu_info(
    total_usage_centi: u32,
    core_usage_centi: Vec<u32>,
    temperature_milli_c: Option<u64>,
    power_milli_w: Option<u64>,
) -> (r: CpuInfo)
    ensures
        r.total_usage_centi == total_usage_centi,
        r.core_usage_centi == core_usage_centi,
        r.temperature_milli_c == temperature_milli_c,
        r.power_milli_w == power_milli_w,
{
    CpuInfo { total_usage_centi, core_usage_centi, temperature_milli_c, power_milli_w }
}

/// The label one process state is reported under.
pub fn process_status_label(k: ProcessStateKind) -> (r: String)
    ensures
        match k {
            ProcessStateKind::Run => r@ == "Running"@,
            ProcessStateKind::Sleep => r@ == "Sleeping"@,
            ProcessStateKind::Idle => r@ == "Idle"@,
            ProcessStateKind::Zombie => r@ == "Zombie"@,
            ProcessStateKind::Other => r@ == "Unknown"@,
        },
{
    match k {
        ProcessStateKind::Run => "Running".to_owned(),
        ProcessStateKind::Sleep => "Sleeping".to_owned(),
        ProcessStateKind::Idle => "Idle".to_owned(),
        ProcessStateKind::Zombie => "Zombie".to_owned(),
        ProcessStateKind::Other => "Unknown".to_owned(),
    }
}

/// The static host description, with every unavailable text field
/// replaced by "Unknown".
pub fn static_info_from(
    os_name: Option<String>,
    kernel_version: Option<String>,
    hostname: Option<String>,
    cpu_cores: usize,
    cpu_brand: Option<String>,
    total_memory_bytes: u64,
) -> (r: SystemStaticInfo)
    ensures
        r.os_name@ == (match os_name {
            Some(s) => s@,
            None => "Unknown"@,
        }),
        r.kernel_version@ == (match kernel_version {
            Some(s) => s@,
            None => "Unknown"@,
        }),
        r.hostname@ == (match hostname {
            Some(s) => s@,
            None => "Unknown"@,
        }),
        r.cpu_cores == cpu_cores,
        r.cpu_brand@ == (match cpu_brand {
            Some(s) => s@,
            None => "Unknown"@,
        }),
        r.total_memory_bytes == total_memory_bytes,
{
    let unknown = "Unknown";
    SystemStaticInfo {
        os_name: match os_name {
            Some(s) => s,
            None => unknown.to_owned(),
        },
        kernel_version: match kernel_version {
            Some(s) => s,
            None => unknown.to_owned(),
        },
        hostname: match hostname {
            Some(s) => s,
            None => unknown.to_owned(),
        },
        cpu_cores,
        cpu_brand: match cpu_brand {
            Some(s) => s,
            None => unknown.to_owned(),
        },
        total_memory_bytes,
    }
}

} // verus!
