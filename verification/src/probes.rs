//! Trusted bindings to the outside world: the `sysinfo` probes and the clock.
//!
//! Every function here is believed, not verified. What each one returns
//! depends on the machine and the moment, so none of the contracts promises
//! anything about the values; every guarantee of the monitor is established
//! by verified code over whatever plain values these hand back.

use vstd::prelude::*;
use crate::model::{DiskProbe, NetworkInterfaceSample, ProcessProbe};

verus! {

#[verifier::external_type_specification]
#[verifier::external_body]
pub struct ExSystem(sysinfo::System);

#[verifier::external_type_specification]
#[verifier::external_body]
pub struct ExDisks(sysinfo::Disks);

#[verifier::external_type_specification]
#[verifier::external_body]
pub struct ExNetworks(sysinfo::Networks);

#[verifier::external_type_specification]
#[verifier::external_body]
pub struct ExDisk(sysinfo::Disk);

#[verifier::external_type_specification]
#[verifier::external_body]
pub struct ExNetworkData(sysinfo::NetworkData);

/// Relies on std::time::SystemTime::now: the wall-clock time, returned as
/// whole milliseconds since the Unix epoch, or zero if the clock stands
/// before it.
#[verifier::external_body]
pub(crate) fn clock_millis() -> u64 {
    std::time::SystemTime::now().duration_since(std::time::UNIX_EPOCH).map_or(
        0,
        |d| d.as_millis() as u64,
    )
}

/// Relies on sysinfo::System::new_all: creates a System with every kind of
/// data refreshed once.
#[verifier::external_body]
pub(crate) fn sys_new() -> sysinfo::System {
    sysinfo::System::new_all()
}

/// Relies on sysinfo::System::refresh_cpu_specifics: re-reads all CPU data.
#[verifier::external_body]
pub(crate) fn sys_refresh_cpu(sys: &mut sysinfo::System) {
    sys.refresh_cpu_specifics(sysinfo::CpuRefreshKind::everything());
}

/// Relies on sysinfo::System::refresh_memory: re-reads RAM and swap usage.
#[verifier::external_body]
pub(crate) fn sys_refresh_memory(sys: &mut sysinfo::System) {
    sys.refresh_memory();
}

/// Relies on sysinfo::System::refresh_processes_specifics: re-reads the
/// whole process table, keeping entries of processes that have died.
#[verifier::external_body]
pub(crate) fn sys_refresh_processes(sys: &mut sysinfo::System) {
    sys.refresh_processes_specifics(
        sysinfo::ProcessesToUpdate::All,
        false,
        sysinfo::ProcessRefreshKind::everything(),
    );
}

/// Relies on sysinfo::System::global_cpu_usage: the global CPU percentage,
/// handed out as its IEEE-754 single-precision bit pattern.
#[verifier::external_body]
pub(crate) fn sys_global_cpu_bits(sys: &sysinfo::System) -> u32 {
    sys.global_cpu_usage().to_bits()
}

/// Relies on sysinfo::System::used_memory: used RAM in bytes.
#[verifier::external_body]
pub(crate) fn sys_used_memory(sys: &sysinfo::System) -> u64 {
    sys.used_memory()
}

/// Relies on sysinfo::System::free_memory: free RAM in bytes.
#[verifier::external_body]
pub(crate) fn sys_free_memory(sys: &sysinfo::System) -> u64 {
    sys.free_memory()
}

/// Relies on sysinfo::System::total_memory: total RAM in bytes.
#[verifier::external_body]
pub(crate) fn sys_total_memory(sys: &sysinfo::System) -> u64 {
    sys.total_memory()
}

/// Relies on sysinfo::System::available_memory: reusable RAM in bytes.
#[verifier::external_body]
pub(crate) fn sys_available_memory(sys: &sysinfo::System) -> u64 {
    sys.available_memory()
}

/// Relies on sysinfo::System::used_swap: used swap in bytes.
#[verifier::external_body]
pub(crate) fn sys_used_swap(sys: &sysinfo::System) -> u64 {
    sys.used_swap()
}

/// Relies on sysinfo::System::total_swap: total swap in bytes.
#[verifier::external_body]
pub(crate) fn sys_total_swap(sys: &sysinfo::System) -> u64 {
    sys.total_swap()
}

/// Relies on sysinfo::System::processes and the Process accessors pid, name,
/// cpu_usage, memory, cmd, start_time and parent: one probe per table entry,
/// each field handed out as a plain value, the CPU percentage as its IEEE-754
/// single-precision bit pattern and the command line as one String per
/// argument.
#[verifier::external_body]
pub(crate) fn sys_process_probes(sys: &sysinfo::System) -> Vec<ProcessProbe> {
    sys.processes().values().map(
        |p| ProcessProbe {
            pid: p.pid().as_u32(),
            name: p.name().to_string_lossy().into_owned(),
            cpu_bits: p.cpu_usage().to_bits(),
            memory_bytes: p.memory(),
            command: p.cmd().iter().map(|c| c.to_string_lossy().into_owned()).collect(),
            start_time: p.start_time(),
            parent: p.parent().map(|q| q.as_u32()),
        },
    ).collect()
}

/// Relies on sysinfo::System::process and sysinfo::Process::kill: sends the
/// kill signal to that process and reports whether the signal was sent;
/// false when the process is gone from sysinfo's table.
#[verifier::external_body]
pub(crate) fn sys_kill(sys: &sysinfo::System, pid: u32) -> bool {
    match sys.process(sysinfo::Pid::from_u32(pid)) {
        Some(p) => p.kill(),
        None => false,
    }
}

/// Relies on sysinfo::Disks::new_with_refreshed_list: the mounted disks,
/// enumerated once.
#[verifier::external_body]
pub(crate) fn disks_new() -> sysinfo::Disks {
    sysinfo::Disks::new_with_refreshed_list()
}

/// Relies on sysinfo::Disks::refresh: re-reads every listed disk, keeping
/// entries of disks that have gone.
#[verifier::external_body]
pub(crate) fn disks_refresh(disks: &mut sysinfo::Disks) {
    disks.refresh(false);
}

/// Relies on sysinfo::Disks::list and the Disk accessors name, file_system,
/// mount_point, available_space and total_space: one probe per disk, each
/// field handed out as a plain value.
#[verifier::external_body]
pub(crate) fn disk_probes(disks: &sysinfo::Disks) -> Vec<DiskProbe> {
    disks.list().iter().map(
        |d| DiskProbe {
            name: d.name().to_string_lossy().into_owned(),
            filesystem: d.file_system().to_string_lossy().into_owned(),
            mount_point: d.mount_point().to_string_lossy().into_owned(),
            available: d.available_space(),
            total: d.total_space(),
        },
    ).collect()
}

/// Relies on sysinfo::Networks::new_with_refreshed_list: the network
/// interfaces, enumerated once.
#[verifier::external_body]
pub(crate) fn networks_new() -> sysinfo::Networks {
    sysinfo::Networks::new_with_refreshed_list()
}

/// Relies on sysinfo::Networks::refresh: re-reads every listed interface,
/// keeping entries of interfaces that have gone.
#[verifier::external_body]
pub(crate) fn networks_refresh(networks: &mut sysinfo::Networks) {
    networks.refresh(false);
}

/// Relies on sysinfo::Networks::list and the NetworkData accessors
/// total_received and total_transmitted: one sample per interface with its
/// cumulative traffic counters.
#[verifier::external_body]
pub(crate) fn network_probes(networks: &sysinfo::Networks) -> Vec<NetworkInterfaceSample> {
    networks.list().iter().map(
        |(name, data)| NetworkInterfaceSample {
            interface: name.clone(),
            rx_bytes: data.total_received(),
            tx_bytes: data.total_transmitted(),
        },
    ).collect()
}

} // verus!
