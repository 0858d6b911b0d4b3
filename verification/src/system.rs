//! The monitor: one refresh cycle per call, a cached plain-value state, and
//! the query and process-control operations over it.
//!
//! CPU percentages need two time-separated samples; here the delta interval
//! is the time between two successive refresh cycles, so the caller's refresh
//! cadence is the sampling interval. Disk enumeration is throttled to at most
//! once per window; memory, network and process data are re-read every cycle.

use vstd::prelude::*;
use crate::aggregate::{aggregate, is_aggregation};
use crate::error::ProcessControlError;
use crate::model::{
    DiskProbe,
    DiskSample,
    MemorySnapshot,
    NetworkInterfaceSample,
    RawProcessSample,
    build_disk_samples,
    build_process_table,
    disks_built_from,
    distinct_pids,
    filter_networks,
    has_pid,
    normalize_memory,
};
use crate::percent::centi_of_bits;
use crate::probes;

pub use crate::aggregate::CombinedProcess;
pub use crate::model::ProcessDetails;

verus! {

/// How long the disk list is reused before it may be enumerated again, in
/// milliseconds.
pub const DISK_REFRESH_WINDOW_MS: u64 = 60_000;

/// Whether the disk-refresh window has elapsed: the clock reading has reached
/// the last refresh stamp plus the window.
pub open spec fn spec_disks_due(now_ms: u64, last_ms: u64) -> bool {
    now_ms >= last_ms + DISK_REFRESH_WINDOW_MS
}

/// Whether the disk-refresh window has elapsed. A clock reading behind the
/// stamp counts as not due.
pub fn disks_due(now_ms: u64, last_ms: u64) -> (r: bool)
    ensures
        r == spec_disks_due(now_ms, last_ms),
{
    now_ms >= last_ms && now_ms - last_ms >= DISK_REFRESH_WINDOW_MS
}

/// One refresh cycle's effect on the disk list and its stamp: rebuilt and
/// restamped when the window has elapsed, untouched otherwise.
pub open spec fn spec_disk_step(
    s: (Seq<DiskSample>, u64),
    now_ms: u64,
    probed: Seq<DiskSample>,
) -> (Seq<DiskSample>, u64) {
    if spec_disks_due(now_ms, s.1) {
        (probed, now_ms)
    } else {
        s
    }
}

/// Disk-refresh throttling: two successive refresh cycles whose clock
/// readings both fall short of the stamp plus the window leave the disk list
/// and the stamp exactly as they were, whatever the probes would have
/// returned.
pub proof fn lemma_disk_throttle_window(
    disks: Seq<DiskSample>,
    last_ms: u64,
    now1: u64,
    probed1: Seq<DiskSample>,
    now2: u64,
    probed2: Seq<DiskSample>,
)
    requires
        !spec_disks_due(now1, last_ms),
        !spec_disks_due(now2, last_ms),
    ensures
        spec_disk_step(spec_disk_step((disks, last_ms), now1, probed1), now2, probed2) == (
            disks,
            last_ms,
        ),
{
}

/// Between the states before and after one refresh cycle: either the disk
/// list and its stamp are untouched, or the stamp advanced by at least the
/// throttle window.
pub open spec fn spec_disk_throttled(pre: MonitorState, post: MonitorState) -> bool {
    ||| (post.disks@ == pre.disks@ && post.last_disk_refresh_ms == pre.last_disk_refresh_ms)
    ||| post.last_disk_refresh_ms as int >= pre.last_disk_refresh_ms as int
        + DISK_REFRESH_WINDOW_MS as int
}

/// The disk list and stamp of `post` come from those of `pre` by one
/// `spec_disk_step`, at some clock reading and probe outcome.
pub open spec fn spec_disk_stepped(pre: MonitorState, post: MonitorState) -> bool {
    exists|now_ms: u64, probed: Seq<DiskSample>|
        (post.disks@, post.last_disk_refresh_ms) == spec_disk_step(
            (pre.disks@, pre.last_disk_refresh_ms),
            now_ms,
            probed,
        )
}

/// The monitor's cached state: the latest snapshot of every probe, the
/// combined process list derived from the raw table, and the stamp of the
/// last disk enumeration.
pub struct MonitorState {
    /// Global CPU usage in hundredths of a percent.
    pub global_cpu_usage: u64,
    /// The latest memory snapshot.
    pub memory: MemorySnapshot,
    /// The latest disk list, reused inside the throttle window.
    pub disks: Vec<DiskSample>,
    /// The latest network list, active interfaces only.
    pub networks: Vec<NetworkInterfaceSample>,
    /// The raw process table of the latest cycle.
    pub processes: Vec<RawProcessSample>,
    /// The combined process list derived from `processes`.
    pub combined: Vec<CombinedProcess>,
    /// When the disk list was last rebuilt, in clock milliseconds.
    pub last_disk_refresh_ms: u64,
}

impl MonitorState {
    /// The state invariant: every snapshot is well-formed, the raw table
    /// carries pairwise distinct pids, and the combined list is exactly the
    /// aggregation of the raw table.
    pub open spec fn wf(self) -> bool {
        &&& self.memory.wf()
        &&& forall|i: int| 0 <= i < self.disks@.len() ==> (#[trigger] self.disks@[i]).wf()
        &&& forall|i: int|
            0 <= i < self.networks@.len() ==> (#[trigger] self.networks@[i]).is_active()
        &&& distinct_pids(self.processes@)
        &&& is_aggregation(self.processes@, self.combined@)
    }
}

/// In every well-formed monitor state, each cached combined record's CPU
/// usage equals the sum of CPU usage over all raw samples whose pid lies in
/// its member list, and its memory usage equals the corresponding sum of
/// memory.
pub proof fn lemma_state_combined_sums(s: MonitorState, k: int)
    requires
        s.wf(),
        0 <= k < s.combined@.len(),
    ensures
        s.combined@[k].cpu_usage as int == crate::aggregate::spec_cpu_sum_over_pids(
            s.processes@,
            s.combined@[k].pids@,
        ),
        s.combined@[k].memory_usage as int == crate::aggregate::spec_mem_sum_over_pids(
            s.processes@,
            s.combined@[k].pids@,
        ),
{
    crate::aggregate::lemma_combined_sums_over_member_pids(s.processes@, s.combined@, k);
}

/// In every well-formed monitor state, the member lists of the cached
/// combined records cover exactly the pids of the raw table, with no pid in
/// two records and none listed twice.
pub proof fn lemma_state_pids_partition(s: MonitorState)
    requires
        s.wf(),
    ensures
        forall|p: u32|
            crate::aggregate::pid_in_some_record(s.combined@, p) <==> has_pid(s.processes@, p),
        forall|k1: int, k2: int, p: u32|
            0 <= k1 < k2 < s.combined@.len() ==> !(#[trigger] s.combined@[k1].pids@.contains(p)
                && #[trigger] s.combined@[k2].pids@.contains(p)),
        forall|k: int, i1: int, i2: int|
            0 <= k < s.combined@.len() && 0 <= i1 < i2 < s.combined@[k].pids@.len()
                ==> #[trigger] s.combined@[k].pids@[i1] != #[trigger] s.combined@[k].pids@[i2],
{
    crate::aggregate::lemma_combined_pids_partition(s.processes@, s.combined@);
}

/// The system monitor: the probe handles and the cached state they feed.
pub struct SystemMonitor {
    /// The CPU, memory and process probe handle.
    pub sys: sysinfo::System,
    /// The disk probe handle.
    pub disks: sysinfo::Disks,
    /// The network probe handle.
    pub networks: sysinfo::Networks,
    /// The cached plain-value state, replaced by `refresh`.
    pub state: MonitorState,
}

/// The index of the sample carrying `pid`, if the table has one.
fn find_pid_index(table: &Vec<RawProcessSample>, pid: u32) -> (r: Option<usize>)
    ensures
        match r {
            Some(i) => i < table@.len() && table@[i as int].pid == pid,
            None => !has_pid(table@, pid),
        },
{
    let mut i: usize = 0;
    while i < table.len()
        invariant
            i <= table@.len(),
            forall|k: int| 0 <= k < i ==> (#[trigger] table@[k]).pid != pid,
        decreases table@.len() - i,
    {
        if table[i].pid == pid {
            return Some(i);
        }
        i = i + 1;
    }
    None
}

/// A fresh copy of a pid list.
fn copy_pids(v: &Vec<u32>) -> (r: Vec<u32>)
    ensures
        r@ == v@,
{
    let mut out: Vec<u32> = Vec::new();
    let mut i: usize = 0;
    while i < v.len()
        invariant
            i <= v@.len(),
            out@ == v@.take(i as int),
        decreases v@.len() - i,
    {
        out.push(v[i]);
        proof {
            assert(out@ =~= v@.take(i + 1));
        }
        i = i + 1;
    }
    proof {
        assert(v@.take(v@.len() as int) =~= v@);
    }
    out
}

/// Value equality of two combined records, field by field.
pub open spec fn combined_like(a: CombinedProcess, b: CombinedProcess) -> bool {
    &&& a.name@ == b.name@
    &&& a.cpu_usage == b.cpu_usage
    &&& a.memory_usage == b.memory_usage
    &&& a.pids@ == b.pids@
}

impl SystemMonitor {
    /// Creates a monitor with every probe enumerated once and the state
    /// populated from a first sampling cycle; the disk stamp starts at the
    /// current clock reading.
    pub fn new() -> (m: SystemMonitor)
        ensures
            m.state.wf(),
    {
        let mut sys = probes::sys_new();
        probes::sys_refresh_cpu(&mut sys);
        probes::sys_refresh_memory(&mut sys);
        probes::sys_refresh_processes(&mut sys);
        let disks = probes::disks_new();
        let networks = probes::networks_new();
        let now = probes::clock_millis();
        let disk_probes = probes::disk_probes(&disks);
        let network_probes = probes::network_probes(&networks);
        let process_probes = probes::sys_process_probes(&sys);
        let table = build_process_table(&process_probes);
        let combined = aggregate(&table);
        let memory = normalize_memory(
            probes::sys_used_memory(&sys),
            probes::sys_free_memory(&sys),
            probes::sys_total_memory(&sys),
            probes::sys_available_memory(&sys),
            probes::sys_used_swap(&sys),
            probes::sys_total_swap(&sys),
        );
        let global_cpu_usage = centi_of_bits(probes::sys_global_cpu_bits(&sys));
        SystemMonitor {
            sys,
            disks,
            networks,
            state: MonitorState {
                global_cpu_usage,
                memory,
                disks: build_disk_samples(&disk_probes),
                networks: filter_networks(network_probes),
                processes: table,
                combined,
                last_disk_refresh_ms: now,
            },
        }
    }

    /// Runs one full refresh cycle at the current wall-clock reading,
    /// replacing the cached state.
    pub fn refresh(&mut self)
        requires
            old(self).state.wf(),
        ensures
            final(self).state.wf(),
            spec_disk_throttled(old(self).state, final(self).state),
            spec_disk_stepped(old(self).state, final(self).state),
    {
        let now = probes::clock_millis();
        let ghost pre = self.state;
        self.do_refresh_cycle(now);
        proof {
            if spec_disks_due(now, pre.last_disk_refresh_ms) {
                assert((self.state.disks@, self.state.last_disk_refresh_ms) == spec_disk_step(
                    (pre.disks@, pre.last_disk_refresh_ms),
                    now,
                    self.state.disks@,
                ));
            } else {
                assert((self.state.disks@, self.state.last_disk_refresh_ms) == spec_disk_step(
                    (pre.disks@, pre.last_disk_refresh_ms),
                    now,
                    Seq::<DiskSample>::empty(),
                ));
            }
        }
    }

    /// One sampling cycle at the clock reading `now_ms`: re-reads CPU and
    /// memory, rebuilds the disk list exactly when the throttle window has
    /// elapsed at `now_ms` — restamping it to `now_ms` — and re-reads the
    /// network and process tables, replacing the combined list. Taking the
    /// clock reading as an argument pins the throttle behaviour for every
    /// reading; `refresh` passes the current wall clock.
    pub fn do_refresh_cycle(&mut self, now_ms: u64)
        requires
            old(self).state.wf(),
        ensures
            final(self).state.wf(),
            !spec_disks_due(now_ms, old(self).state.last_disk_refresh_ms)
                ==> final(self).state.disks@ == old(self).state.disks@
                && final(self).state.last_disk_refresh_ms == old(self).state.last_disk_refresh_ms,
            spec_disks_due(now_ms, old(self).state.last_disk_refresh_ms)
                ==> final(self).state.last_disk_refresh_ms == now_ms
                && exists|probed: Seq<DiskProbe>|
                disks_built_from(probed, final(self).state.disks@),
    {
        probes::sys_refresh_cpu(&mut self.sys);
        probes::sys_refresh_memory(&mut self.sys);
        let ghost mut probed: Seq<DiskProbe> = Seq::empty();
        if disks_due(now_ms, self.state.last_disk_refresh_ms) {
            probes::disks_refresh(&mut self.disks);
            let disk_probes = probes::disk_probes(&self.disks);
            self.state.disks = build_disk_samples(&disk_probes);
            self.state.last_disk_refresh_ms = now_ms;
            proof {
                probed = disk_probes@;
            }
        }
        probes::networks_refresh(&mut self.networks);
        let network_probes = probes::network_probes(&self.networks);
        self.state.networks = filter_networks(network_probes);
        probes::sys_refresh_processes(&mut self.sys);
        let process_probes = probes::sys_process_probes(&self.sys);
        let table = build_process_table(&process_probes);
        self.state.combined = aggregate(&table);
        self.state.processes = table;
        self.state.memory = normalize_memory(
            probes::sys_used_memory(&self.sys),
            probes::sys_free_memory(&self.sys),
            probes::sys_total_memory(&self.sys),
            probes::sys_available_memory(&self.sys),
            probes::sys_used_swap(&self.sys),
            probes::sys_total_swap(&self.sys),
        );
        self.state.global_cpu_usage = centi_of_bits(probes::sys_global_cpu_bits(&self.sys));
        proof {
            if spec_disks_due(now_ms, old(self).state.last_disk_refresh_ms) {
                assert(disks_built_from(probed, self.state.disks@));
            }
        }
    }

    /// The last-sampled global CPU usage, in hundredths of a percent.
    pub fn global_cpu_usage(&self) -> (r: u64)
        ensures
            r == self.state.global_cpu_usage,
    {
        self.state.global_cpu_usage
    }

    /// The cached memory snapshot.
    pub fn memory_info(&self) -> (m: MemorySnapshot)
        ensures
            m == self.state.memory,
            self.state.wf() ==> m.wf(),
    {
        self.state.memory
    }

    /// The cached disk list, reused inside the throttle window.
    pub fn disk_info(&self) -> (r: Vec<DiskSample>)
        ensures
            r@ == self.state.disks@,
            self.state.wf() ==> forall|i: int| 0 <= i < r@.len() ==> (#[trigger] r@[i]).wf(),
    {
        let v = &self.state.disks;
        let mut out: Vec<DiskSample> = Vec::new();
        let mut i: usize = 0;
        while i < v.len()
            invariant
                i <= v@.len(),
                out@ == v@.take(i as int),
            decreases v@.len() - i,
        {
            let d = &v[i];
            out.push(
                DiskSample {
                    name: d.name.clone(),
                    filesystem: d.filesystem.clone(),
                    mount_point: d.mount_point.clone(),
                    used: d.used,
                    available: d.available,
                    total: d.total,
                },
            );
            proof {
                assert(out@ =~= v@.take(i + 1));
            }
            i = i + 1;
        }
        proof {
            assert(v@.take(v@.len() as int) =~= v@);
        }
        out
    }

    /// The cached network list: interfaces that have seen traffic, only.
    pub fn network_info(&self) -> (r: Vec<NetworkInterfaceSample>)
        ensures
            r@ == self.state.networks@,
            self.state.wf() ==> forall|i: int|
                0 <= i < r@.len() ==> (#[trigger] r@[i]).is_active(),
    {
        let v = &self.state.networks;
        let mut out: Vec<NetworkInterfaceSample> = Vec::new();
        let mut i: usize = 0;
        while i < v.len()
            invariant
                i <= v@.len(),
                out@ == v@.take(i as int),
            decreases v@.len() - i,
        {
            let n = &v[i];
            out.push(
                NetworkInterfaceSample {
                    interface: n.interface.clone(),
                    rx_bytes: n.rx_bytes,
                    tx_bytes: n.tx_bytes,
                },
            );
            proof {
                assert(out@ =~= v@.take(i + 1));
            }
            i = i + 1;
        }
        proof {
            assert(v@.take(v@.len() as int) =~= v@);
        }
        out
    }

    /// The cached combined process list: a copy of the aggregation computed
    /// by the last cycle, no new probing.
    pub fn combined_process_list(&self) -> (r: Vec<CombinedProcess>)
        ensures
            r@.len() == self.state.combined@.len(),
            forall|k: int|
                0 <= k < r@.len() ==> combined_like(#[trigger] r@[k], self.state.combined@[k]),
    {
        let v = &self.state.combined;
        let mut out: Vec<CombinedProcess> = Vec::new();
        let mut i: usize = 0;
        while i < v.len()
            invariant
                i <= v@.len(),
                out@.len() == i,
                forall|k: int| 0 <= k < i ==> combined_like(#[trigger] out@[k], v@[k]),
            decreases v@.len() - i,
        {
            let c = &v[i];
            out.push(
                CombinedProcess {
                    name: c.name.clone(),
                    cpu_usage: c.cpu_usage,
                    memory_usage: c.memory_usage,
                    pids: copy_pids(&c.pids),
                },
            );
            i = i + 1;
        }
        out
    }

    /// CPU usage (hundredths of a percent) and memory usage (bytes) of the
    /// process carrying `pid`, or nothing when the pid is absent from the
    /// current raw table.
    pub fn usage_for_pid(&self, pid: u32) -> (r: Option<(u64, u64)>)
        ensures
            match r {
                None => !has_pid(self.state.processes@, pid),
                Some((cpu, mem)) => exists|i: int|
                    0 <= i < self.state.processes@.len() && (#[trigger] self.state.processes@[
                        i
                    ]).pid == pid && self.state.processes@[i].cpu_usage == cpu
                        && self.state.processes@[i].memory_bytes == mem,
            },
    {
        match find_pid_index(&self.state.processes, pid) {
            Some(i) => {
                let s = &self.state.processes[i];
                Some((s.cpu_usage, s.memory_bytes))
            },
            None => None,
        }
    }

    /// Command line, start time and parent pid of the process carrying
    /// `pid`, or nothing when the pid is absent from the current raw table.
    pub fn process_details(&self, pid: u32) -> (r: Option<ProcessDetails>)
        ensures
            match r {
                None => !has_pid(self.state.processes@, pid),
                Some(d) => exists|i: int|
                    0 <= i < self.state.processes@.len() && (#[trigger] self.state.processes@[
                        i
                    ]).pid == pid && self.state.processes@[i].command@ == d.command@
                        && self.state.processes@[i].start_time == d.start_time
                        && self.state.processes@[i].parent == d.parent,
            },
    {
        match find_pid_index(&self.state.processes, pid) {
            Some(i) => {
                let s = &self.state.processes[i];
                Some(
                    ProcessDetails {
                        command: s.command.clone(),
                        start_time: s.start_time,
                        parent: s.parent,
                    },
                )
            },
            None => None,
        }
    }

    /// Issues a forceful termination request for `pid`. Absent pids report
    /// `NotFound` without touching the operating system; for present pids
    /// the outcome is whatever the kill probe reports. The cached state is
    /// not touched; the table catches up on the next refresh.
    pub fn kill_process(&mut self, pid: u32) -> (r: Result<(), ProcessControlError>)
        ensures
            final(self).state == old(self).state,
            !has_pid(old(self).state.processes@, pid) ==> r == Err::<
                (),
                ProcessControlError,
            >(ProcessControlError::NotFound),
            has_pid(old(self).state.processes@, pid) ==> (r == Ok::<(), ProcessControlError>(())
                || r == Err::<(), ProcessControlError>(ProcessControlError::OperationFailed)),
    {
        match find_pid_index(&self.state.processes, pid) {
            Some(_) => {
                if probes::sys_kill(&self.sys, pid) {
                    Ok(())
                } else {
                    Err(ProcessControlError::OperationFailed)
                }
            },
            None => Err(ProcessControlError::NotFound),
        }
    }

    /// Reports on a graceful-terminate request for `pid`. The portable
    /// process adapter exposes only a forceful kill, so for a present pid
    /// this returns `OperationNotSupported` rather than killing it; absent
    /// pids report `NotFound`. Nothing is sent to the operating system.
    pub fn terminate_process(&mut self, pid: u32) -> (r: Result<(), ProcessControlError>)
        ensures
            final(self).state == old(self).state,
            !has_pid(old(self).state.processes@, pid) ==> r == Err::<
                (),
                ProcessControlError,
            >(ProcessControlError::NotFound),
            has_pid(old(self).state.processes@, pid) ==> r == Err::<
                (),
                ProcessControlError,
            >(ProcessControlError::OperationNotSupported),
    {
        match find_pid_index(&self.state.processes, pid) {
            Some(_) => Err(ProcessControlError::OperationNotSupported),
            None => Err(ProcessControlError::NotFound),
        }
    }
}

} // verus!
