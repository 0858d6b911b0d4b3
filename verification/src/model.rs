//! The monitor's data model: plain-value snapshots of what the operating
//! system reports, each with its invariant, and the normalization steps that
//! establish those invariants whatever the raw probes returned.

use vstd::prelude::*;
use crate::percent::{centi_of_bits, spec_centi_of_bits};

verus! {

/// A snapshot of memory counters, in bytes.
#[derive(Debug, Clone, Copy)]
pub struct MemorySnapshot {
    pub used: u64,
    pub free: u64,
    pub total: u64,
    pub available: u64,
    pub swap_used: u64,
    pub swap_total: u64,
}

impl MemorySnapshot {
    /// The snapshot's invariant: no derived counter exceeds its total.
    pub open spec fn wf(self) -> bool {
        &&& self.used <= self.total
        &&& self.free <= self.total
        &&& self.available <= self.total
        &&& self.swap_used <= self.swap_total
    }
}

/// Builds a well-formed memory snapshot from raw counters, clamping each
/// derived counter to its total; counters that already respect their totals
/// are kept as they are.
pub fn normalize_memory(
    used: u64,
    free: u64,
    total: u64,
    available: u64,
    swap_used: u64,
    swap_total: u64,
) -> (m: MemorySnapshot)
    ensures
        m.wf(),
        m.total == total,
        m.swap_total == swap_total,
        m.used == if used <= total {
            used
        } else {
            total
        },
        m.free == if free <= total {
            free
        } else {
            total
        },
        m.available == if available <= total {
            available
        } else {
            total
        },
        m.swap_used == if swap_used <= swap_total {
            swap_used
        } else {
            swap_total
        },
{
    MemorySnapshot {
        used: if used <= total {
            used
        } else {
            total
        },
        free: if free <= total {
            free
        } else {
            total
        },
        total,
        available: if available <= total {
            available
        } else {
            total
        },
        swap_used: if swap_used <= swap_total {
            swap_used
        } else {
            swap_total
        },
        swap_total,
    }
}

/// What the disk probe reports for one mounted disk.
#[derive(Debug, Clone)]
pub struct DiskProbe {
    pub name: String,
    pub filesystem: String,
    pub mount_point: String,
    pub available: u64,
    pub total: u64,
}

/// One mounted disk, sizes in bytes. The used space is derived from the
/// total and the available space.
#[derive(Debug, Clone, PartialEq)]
pub struct DiskSample {
    pub name: String,
    pub filesystem: String,
    pub mount_point: String,
    pub used: u64,
    pub available: u64,
    pub total: u64,
}

impl DiskSample {
    /// The sample's invariant: used and available space partition the total.
    pub open spec fn wf(self) -> bool {
        self.used + self.available == self.total
    }
}

/// How one disk sample is derived from its probe: the available space is
/// clamped to the total, and the used space is the remainder.
pub open spec fn spec_disk_from_probe(p: DiskProbe, d: DiskSample) -> bool {
    &&& d.name@ == p.name@
    &&& d.filesystem@ == p.filesystem@
    &&& d.mount_point@ == p.mount_point@
    &&& d.total == p.total
    &&& d.available == if p.available <= p.total {
        p.available
    } else {
        p.total
    }
    &&& d.used == p.total - d.available
}

/// Whether `disks` is exactly the sample list derived from the probe list
/// `probes`, in order.
pub open spec fn disks_built_from(probes: Seq<DiskProbe>, disks: Seq<DiskSample>) -> bool {
    &&& disks.len() == probes.len()
    &&& forall|i: int|
        0 <= i < disks.len() ==> spec_disk_from_probe(probes[i], #[trigger] disks[i])
}

/// Turns raw disk probes into well-formed disk samples, in order.
pub fn build_disk_samples(probes: &Vec<DiskProbe>) -> (r: Vec<DiskSample>)
    ensures
        disks_built_from(probes@, r@),
        forall|i: int| 0 <= i < r@.len() ==> (#[trigger] r@[i]).wf(),
{
    let mut out: Vec<DiskSample> = Vec::new();
    let mut i: usize = 0;
    while i < probes.len()
        invariant
            i <= probes@.len(),
            out@.len() == i,
            forall|k: int| 0 <= k < i ==> spec_disk_from_probe(probes@[k], #[trigger] out@[k]),
            forall|k: int| 0 <= k < i ==> (#[trigger] out@[k]).wf(),
        decreases probes@.len() - i,
    {
        let p = &probes[i];
        let available = if p.available <= p.total {
            p.available
        } else {
            p.total
        };
        out.push(
            DiskSample {
                name: p.name.clone(),
                filesystem: p.filesystem.clone(),
                mount_point: p.mount_point.clone(),
                used: p.total - available,
                available,
                total: p.total,
            },
        );
        i = i + 1;
    }
    out
}

/// One network interface with its cumulative traffic counters, in bytes.
#[derive(Debug, Clone)]
pub struct NetworkInterfaceSample {
    pub interface: String,
    pub rx_bytes: u64,
    pub tx_bytes: u64,
}

impl NetworkInterfaceSample {
    /// An interface is active when it has seen any traffic at all.
    pub open spec fn is_active(self) -> bool {
        self.rx_bytes > 0 || self.tx_bytes > 0
    }
}

/// The subsequence of `s` made of its active interfaces, order kept.
pub open spec fn spec_active_networks(s: Seq<NetworkInterfaceSample>) -> Seq<
    NetworkInterfaceSample,
>
    decreases s.len(),
{
    if s.len() == 0 {
        Seq::empty()
    } else if s.last().is_active() {
        spec_active_networks(s.drop_last()).push(s.last())
    } else {
        spec_active_networks(s.drop_last())
    }
}

/// Keeps only the interfaces that have seen traffic, in their probe order.
pub fn filter_networks(probes: Vec<NetworkInterfaceSample>) -> (r: Vec<NetworkInterfaceSample>)
    ensures
        r@ == spec_active_networks(probes@),
        forall|i: int| 0 <= i < r@.len() ==> (#[trigger] r@[i]).is_active(),
{
    let mut out: Vec<NetworkInterfaceSample> = Vec::new();
    let mut i: usize = 0;
    while i < probes.len()
        invariant
            i <= probes@.len(),
            out@ == spec_active_networks(probes@.take(i as int)),
            forall|k: int| 0 <= k < out@.len() ==> (#[trigger] out@[k]).is_active(),
        decreases probes@.len() - i,
    {
        let p = &probes[i];
        proof {
            assert(probes@.take(i + 1).drop_last() =~= probes@.take(i as int));
            assert(probes@.take(i + 1).last() == probes@[i as int]);
        }
        if p.rx_bytes > 0 || p.tx_bytes > 0 {
            out.push(
                NetworkInterfaceSample {
                    interface: p.interface.clone(),
                    rx_bytes: p.rx_bytes,
                    tx_bytes: p.tx_bytes,
                },
            );
            proof {
                assert(out@ =~= spec_active_networks(probes@.take(i + 1)));
            }
        }
        i = i + 1;
    }
    proof {
        assert(probes@.take(probes@.len() as int) =~= probes@);
    }
    out
}

/// What the process probe reports for one running process. The CPU usage
/// comes as the bit pattern of an IEEE-754 single-precision percentage, and
/// the command line as one argument per element.
#[derive(Debug, Clone)]
pub struct ProcessProbe {
    pub pid: u32,
    pub name: String,
    pub cpu_bits: u32,
    pub memory_bytes: u64,
    pub command: Vec<String>,
    pub start_time: u64,
    pub parent: Option<u32>,
}

/// One row of the raw process table. CPU usage is in hundredths of a percent.
#[derive(Debug, Clone)]
pub struct RawProcessSample {
    pub pid: u32,
    pub name: String,
    pub cpu_usage: u64,
    pub memory_bytes: u64,
    pub command: String,
    pub start_time: u64,
    pub parent: Option<u32>,
}

/// Detailed information about one process.
#[derive(Debug, Clone)]
pub struct ProcessDetails {
    pub command: String,
    pub start_time: u64,
    pub parent: Option<u32>,
}

/// Whether some probe in `s` carries this pid.
pub open spec fn has_probe_pid(s: Seq<ProcessProbe>, pid: u32) -> bool {
    exists|j: int| 0 <= j < s.len() && (#[trigger] s[j]).pid == pid
}

/// Whether some sample in `s` carries this pid.
pub open spec fn has_pid(s: Seq<RawProcessSample>, pid: u32) -> bool {
    exists|j: int| 0 <= j < s.len() && (#[trigger] s[j]).pid == pid
}

/// Whether the samples of `s` carry pairwise distinct pids.
pub open spec fn distinct_pids(s: Seq<RawProcessSample>) -> bool {
    forall|i: int, j: int|
        0 <= i < j < s.len() ==> (#[trigger] s[i]).pid != (#[trigger] s[j]).pid
}

/// The command-line parts joined into one string with single spaces.
pub open spec fn spec_join_spaces(parts: Seq<String>) -> Seq<char>
    decreases parts.len(),
{
    if parts.len() == 0 {
        Seq::empty()
    } else if parts.len() == 1 {
        parts.last()@
    } else {
        spec_join_spaces(parts.drop_last()) + seq![' '] + parts.last()@
    }
}

/// Joins command-line parts into one string with single spaces.
pub fn join_spaces(parts: &Vec<String>) -> (r: String)
    ensures
        r@ == spec_join_spaces(parts@),
{
    let mut r = String::new();
    let mut i: usize = 0;
    while i < parts.len()
        invariant
            i <= parts@.len(),
            r@ == spec_join_spaces(parts@.take(i as int)),
        decreases parts@.len() - i,
    {
        if i > 0 {
            r.append(" ");
        }
        r.append(parts[i].as_str());
        proof {
            reveal_strlit(" ");
            assert(parts@.take(i + 1).drop_last() =~= parts@.take(i as int));
            assert(parts@.take(i + 1).last() == parts@[i as int]);
            assert(r@ =~= spec_join_spaces(parts@.take(i + 1)));
        }
        i = i + 1;
    }
    proof {
        assert(parts@.take(parts@.len() as int) =~= parts@);
    }
    r
}

/// Whether one table row carries exactly what a probe reported: the same
/// pid, name, memory, start time and parent, the CPU bit pattern read as
/// hundredths of a percent, and the command parts joined with spaces.
pub open spec fn probe_matches_sample(p: ProcessProbe, s: RawProcessSample) -> bool {
    &&& s.pid == p.pid
    &&& s.name@ == p.name@
    &&& s.cpu_usage == spec_centi_of_bits(p.cpu_bits)
    &&& s.memory_bytes == p.memory_bytes
    &&& s.command@ == spec_join_spaces(p.command@)
    &&& s.start_time == p.start_time
    &&& s.parent == p.parent
}

/// Whether `t` is the raw process table the probe list `s` stands for:
/// probe order kept, and of several probes with one pid only the first
/// retained.
pub open spec fn table_built_from(s: Seq<ProcessProbe>, t: Seq<RawProcessSample>) -> bool
    decreases s.len(),
{
    if s.len() == 0 {
        t.len() == 0
    } else if has_probe_pid(s.drop_last(), s.last().pid) {
        table_built_from(s.drop_last(), t)
    } else {
        &&& t.len() > 0
        &&& table_built_from(s.drop_last(), t.drop_last())
        &&& probe_matches_sample(s.last(), t.last())
    }
}

/// Having a pid in a list extended by one probe means having it in the list
/// or in that probe.
proof fn lemma_has_probe_pid_step(s: Seq<ProcessProbe>, pid: u32)
    requires
        s.len() > 0,
    ensures
        has_probe_pid(s, pid) <==> (has_probe_pid(s.drop_last(), pid) || s.last().pid == pid),
{
    if has_probe_pid(s, pid) {
        let j = choose|j: int| 0 <= j < s.len() && (#[trigger] s[j]).pid == pid;
        if j < s.len() - 1 {
            assert(s.drop_last()[j] == s[j]);
        }
    }
    if has_probe_pid(s.drop_last(), pid) {
        let j = choose|j: int|
            0 <= j < s.drop_last().len() && (#[trigger] s.drop_last()[j]).pid == pid;
        assert(s[j].pid == pid);
    }
}

/// Having a pid in a table extended by one sample means having it in the
/// table or in that sample.
proof fn lemma_has_pid_push(s: Seq<RawProcessSample>, x: RawProcessSample, pid: u32)
    ensures
        has_pid(s.push(x), pid) <==> (has_pid(s, pid) || x.pid == pid),
{
    if has_pid(s.push(x), pid) {
        let j = choose|j: int| 0 <= j < s.push(x).len() && (#[trigger] s.push(x)[j]).pid == pid;
        if j < s.len() {
            assert(s[j].pid == pid);
        }
    }
    if has_pid(s, pid) {
        let j = choose|j: int| 0 <= j < s.len() && (#[trigger] s[j]).pid == pid;
        assert(s.push(x)[j].pid == pid);
    }
    assert(s.push(x)[s.len() as int] == x);
}

/// A table built from a probe list carries a pid exactly when the probe
/// list does.
pub proof fn lemma_table_pids(s: Seq<ProcessProbe>, t: Seq<RawProcessSample>)
    requires
        table_built_from(s, t),
    ensures
        forall|pid: u32| has_pid(t, pid) <==> has_probe_pid(s, pid),
    decreases s.len(),
{
    if s.len() > 0 {
        let lastp = s.last();
        if has_probe_pid(s.drop_last(), lastp.pid) {
            lemma_table_pids(s.drop_last(), t);
            assert forall|pid: u32| has_pid(t, pid) <==> has_probe_pid(s, pid) by {
                lemma_has_probe_pid_step(s, pid);
            }
        } else {
            lemma_table_pids(s.drop_last(), t.drop_last());
            assert(t =~= t.drop_last().push(t.last()));
            assert forall|pid: u32| has_pid(t, pid) <==> has_probe_pid(s, pid) by {
                lemma_has_probe_pid_step(s, pid);
                lemma_has_pid_push(t.drop_last(), t.last(), pid);
            }
        }
    }
}

/// A table built from a probe list carries pairwise distinct pids.
pub proof fn lemma_table_distinct(s: Seq<ProcessProbe>, t: Seq<RawProcessSample>)
    requires
        table_built_from(s, t),
    ensures
        distinct_pids(t),
    decreases s.len(),
{
    if s.len() > 0 {
        let lastp = s.last();
        if has_probe_pid(s.drop_last(), lastp.pid) {
            lemma_table_distinct(s.drop_last(), t);
        } else {
            lemma_table_distinct(s.drop_last(), t.drop_last());
            lemma_table_pids(s.drop_last(), t.drop_last());
            assert(t =~= t.drop_last().push(t.last()));
            assert forall|i: int, j: int|
                0 <= i < j < t.len() implies (#[trigger] t[i]).pid != (#[trigger] t[j]).pid by {
                if j == t.len() - 1 {
                    assert(t[i] == t.drop_last()[i]);
                    if t[i].pid == t[j].pid {
                        assert(t.drop_last()[i].pid == lastp.pid);
                        assert(has_pid(t.drop_last(), lastp.pid));
                        assert(has_probe_pid(s.drop_last(), lastp.pid));
                        assert(false);
                    }
                } else {
                    assert(t[i] == t.drop_last()[i] && t[j] == t.drop_last()[j]);
                }
            }
        }
    }
}

/// Builds the raw process table from the probe list: probe order kept, of
/// several probes with one pid only the first retained, each CPU bit
/// pattern read as hundredths of a percent, and each command line joined
/// into one string.
pub fn build_process_table(probes: &Vec<ProcessProbe>) -> (r: Vec<RawProcessSample>)
    ensures
        table_built_from(probes@, r@),
        distinct_pids(r@),
{
    let mut out: Vec<RawProcessSample> = Vec::new();
    let mut i: usize = 0;
    while i < probes.len()
        invariant
            i <= probes@.len(),
            table_built_from(probes@.take(i as int), out@),
        decreases probes@.len() - i,
    {
        let p = &probes[i];
        let mut seen = false;
        let mut j: usize = 0;
        while j < out.len()
            invariant
                j <= out@.len(),
                seen <==> exists|k: int| 0 <= k < j && (#[trigger] out@[k]).pid == p.pid,
            decreases out@.len() - j,
        {
            if out[j].pid == p.pid {
                seen = true;
            }
            j = j + 1;
        }
        proof {
            assert(seen <==> has_pid(out@, p.pid));
            lemma_table_pids(probes@.take(i as int), out@);
            assert(probes@.take(i + 1).drop_last() =~= probes@.take(i as int));
            assert(probes@.take(i + 1).last() == probes@[i as int]);
        }
        let ghost out0 = out@;
        if !seen {
            out.push(
                RawProcessSample {
                    pid: p.pid,
                    name: p.name.clone(),
                    cpu_usage: centi_of_bits(p.cpu_bits),
                    memory_bytes: p.memory_bytes,
                    command: join_spaces(&p.command),
                    start_time: p.start_time,
                    parent: p.parent,
                },
            );
            proof {
                assert(out@.drop_last() =~= out0);
                assert(probe_matches_sample(probes@[i as int], out@.last()));
                assert(table_built_from(probes@.take(i + 1), out@));
            }
        } else {
            proof {
                assert(table_built_from(probes@.take(i + 1), out@));
            }
        }
        i = i + 1;
    }
    proof {
        assert(probes@.take(probes@.len() as int) =~= probes@);
        lemma_table_distinct(probes@, out@);
    }
    out
}

} // verus!
