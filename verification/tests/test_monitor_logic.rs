use rust_dashboard::aggregate::aggregate;
use rust_dashboard::error::{DashboardError, ProcessControlError};
use rust_dashboard::model::{
    build_disk_samples, build_process_table, filter_networks, normalize_memory, DiskProbe,
    NetworkInterfaceSample, ProcessProbe, RawProcessSample,
};
use rust_dashboard::percent::centi_of_bits;
use rust_dashboard::system::{disks_due, DISK_REFRESH_WINDOW_MS};
use rust_dashboard::units::{format_bytes, u64_to_string};

fn sample(pid: u32, name: &str, cpu: u64, mem: u64) -> RawProcessSample {
    RawProcessSample {
        pid,
        name: name.to_string(),
        cpu_usage: cpu,
        memory_bytes: mem,
        command: String::new(),
        start_time: 0,
        parent: None,
    }
}

#[test]
fn test_aggregate_sums_and_pids() {
    let table = vec![
        sample(1, "firefox", 1050, 100),
        sample(2, "bash", 25, 50),
        sample(3, "firefox", 250, 200),
    ];
    let combined = aggregate(&table);
    assert_eq!(combined.len(), 2);
    let firefox = combined.iter().find(|c| c.name == "firefox").unwrap();
    assert_eq!(firefox.cpu_usage, 1300u128);
    assert_eq!(firefox.memory_usage, 300u128);
    assert_eq!(firefox.pids, vec![1, 3]);
    let bash = combined.iter().find(|c| c.name == "bash").unwrap();
    assert_eq!(bash.cpu_usage, 25u128);
    assert_eq!(bash.memory_usage, 50u128);
    assert_eq!(bash.pids, vec![2]);
}

#[test]
fn test_aggregate_pids_cover_table_once() {
    let table = vec![
        sample(10, "a", 1, 1),
        sample(11, "b", 2, 2),
        sample(12, "a", 3, 3),
        sample(13, "c", 4, 4),
    ];
    let combined = aggregate(&table);
    let mut all_pids: Vec<u32> = Vec::new();
    for c in &combined {
        all_pids.extend(c.pids.iter().copied());
    }
    all_pids.sort();
    assert_eq!(all_pids, vec![10, 11, 12, 13]);
}

#[test]
fn test_aggregate_empty_table() {
    let table: Vec<RawProcessSample> = Vec::new();
    let combined = aggregate(&table);
    assert!(combined.is_empty());
}

#[test]
fn test_build_process_table_keeps_first_of_duplicate_pids() {
    let probe = |pid: u32, name: &str, cpu: f32| ProcessProbe {
        pid,
        name: name.to_string(),
        cpu_bits: cpu.to_bits(),
        memory_bytes: 10,
        command: vec!["cmd".to_string(), "-x".to_string()],
        start_time: 7,
        parent: Some(1),
    };
    let probes = vec![probe(1, "a", 1.5), probe(1, "b", 2.0), probe(2, "c", 0.25)];
    let table = build_process_table(&probes);
    assert_eq!(table.len(), 2);
    assert_eq!(table[0].pid, 1);
    assert_eq!(table[0].name, "a");
    assert_eq!(table[0].cpu_usage, 150);
    assert_eq!(table[0].command, "cmd -x");
    assert_eq!(table[1].pid, 2);
    assert_eq!(table[1].cpu_usage, 25);
}

#[test]
fn test_centi_of_bits_exact_values() {
    assert_eq!(centi_of_bits(1.0f32.to_bits()), 100);
    assert_eq!(centi_of_bits(0.5f32.to_bits()), 50);
    assert_eq!(centi_of_bits(12.34f32.to_bits()), 1234);
    assert_eq!(centi_of_bits(250.0f32.to_bits()), 25000);
    assert_eq!(centi_of_bits(2048.0f32.to_bits()), 204800);
}

#[test]
fn test_centi_of_bits_edge_patterns() {
    assert_eq!(centi_of_bits(0.0f32.to_bits()), 0);
    assert_eq!(centi_of_bits(0.009f32.to_bits()), 0);
    assert_eq!(centi_of_bits((-3.0f32).to_bits()), 0);
    assert_eq!(centi_of_bits(f32::NAN.to_bits()), 0);
    assert_eq!(centi_of_bits(f32::INFINITY.to_bits()), u64::MAX);
    assert_eq!(centi_of_bits(f32::MAX.to_bits()), u64::MAX);
}

#[test]
fn test_format_bytes_units() {
    assert_eq!(format_bytes(0), "0 B");
    assert_eq!(format_bytes(1023), "1023 B");
    assert_eq!(format_bytes(1024), "1.00 KB");
    assert_eq!(format_bytes(1536), "1.50 KB");
    assert_eq!(format_bytes(10 * 1024 * 1024), "10.00 MB");
    assert_eq!(format_bytes(2684354560), "2.50 GB");
    assert_eq!(format_bytes(1099511627776), "1.00 TB");
}

#[test]
fn test_format_bytes_rounding() {
    assert_eq!(format_bytes(1034), "1.01 KB");
    assert_eq!(format_bytes(1075), "1.05 KB");
    // exact ties go to the even hundredth, as float formatting renders them
    assert_eq!(format_bytes(1152), "1.12 KB");
    assert_eq!(format_bytes(1408), "1.38 KB");
    assert_eq!(format!("{:.2} KB", 1152u64 as f64 / 1024.0), "1.12 KB");
    assert_eq!(format!("{:.2} KB", 1408u64 as f64 / 1024.0), "1.38 KB");
}

#[test]
fn test_format_bytes_matches_float_formatting() {
    for b in [0u64, 1023, 1024, 1536, 1152, 1408, 1034, 1075, 10 * 1024 * 1024, 2684354560,
        1099511627776, 9007199254740993, u64::MAX]
    {
        let expected = if b >= 1 << 40 {
            format!("{:.2} TB", b as f64 / (1u64 << 40) as f64)
        } else if b >= 1 << 30 {
            format!("{:.2} GB", b as f64 / (1u64 << 30) as f64)
        } else if b >= 1 << 20 {
            format!("{:.2} MB", b as f64 / (1u64 << 20) as f64)
        } else if b >= 1 << 10 {
            format!("{:.2} KB", b as f64 / (1u64 << 10) as f64)
        } else {
            format!("{} B", b)
        };
        assert_eq!(format_bytes(b), expected);
    }
}

#[test]
fn test_format_bytes_largest_input() {
    assert_eq!(format_bytes(u64::MAX), "16777216.00 TB");
    assert_eq!(format_bytes(5 * (1 << 39)), "2.50 TB");
    assert_eq!(format_bytes(9007199254740993), "8192.00 TB");
}

#[test]
fn test_u64_to_string_digits() {
    assert_eq!(u64_to_string(0), "0");
    assert_eq!(u64_to_string(907), "907");
    assert_eq!(u64_to_string(u64::MAX), "18446744073709551615");
}

#[test]
fn test_normalize_memory_keeps_sane_counters() {
    let m = normalize_memory(500, 300, 1000, 800, 10, 50);
    assert_eq!(m.used, 500);
    assert_eq!(m.free, 300);
    assert_eq!(m.total, 1000);
    assert_eq!(m.available, 800);
    assert_eq!(m.swap_used, 10);
    assert_eq!(m.swap_total, 50);
}

#[test]
fn test_normalize_memory_clamps_to_totals() {
    let m = normalize_memory(2000, 300, 1000, 1500, 100, 50);
    assert_eq!(m.used, 1000);
    assert_eq!(m.free, 300);
    assert_eq!(m.available, 1000);
    assert_eq!(m.swap_used, 50);
    assert!(m.total >= m.used && m.total >= m.free);
    assert!(m.available <= m.total && m.swap_total >= m.swap_used);
}

#[test]
fn test_build_disk_samples_derives_used_space() {
    let probes = vec![DiskProbe {
        name: "sda1".to_string(),
        filesystem: "ext4".to_string(),
        mount_point: "/".to_string(),
        available: 400,
        total: 1000,
    }];
    let disks = build_disk_samples(&probes);
    assert_eq!(disks.len(), 1);
    assert_eq!(disks[0].used, 600);
    assert_eq!(disks[0].available, 400);
    assert_eq!(disks[0].total, 1000);
    assert_eq!(disks[0].used + disks[0].available, disks[0].total);
}

#[test]
fn test_build_disk_samples_clamps_overreported_space() {
    let probes = vec![DiskProbe {
        name: "sdb1".to_string(),
        filesystem: "ext4".to_string(),
        mount_point: "/data".to_string(),
        available: 1500,
        total: 1000,
    }];
    let disks = build_disk_samples(&probes);
    assert_eq!(disks[0].available, 1000);
    assert_eq!(disks[0].used, 0);
    assert_eq!(disks[0].used + disks[0].available, disks[0].total);
}

#[test]
fn test_filter_networks_drops_idle_interfaces() {
    let net = |name: &str, rx: u64, tx: u64| NetworkInterfaceSample {
        interface: name.to_string(),
        rx_bytes: rx,
        tx_bytes: tx,
    };
    let probes = vec![net("eth0", 10, 0), net("lo", 0, 0), net("wlan0", 0, 5)];
    let active = filter_networks(probes);
    assert_eq!(active.len(), 2);
    assert_eq!(active[0].interface, "eth0");
    assert_eq!(active[1].interface, "wlan0");
}

#[test]
fn test_disks_due_window() {
    assert_eq!(DISK_REFRESH_WINDOW_MS, 60_000);
    assert!(disks_due(60_000, 0));
    assert!(!disks_due(59_999, 0));
    assert!(disks_due(1_060_000, 1_000_000));
    assert!(!disks_due(1_000_001, 1_000_000));
    assert!(!disks_due(0, 1_000_000));
}

#[test]
fn test_error_messages() {
    assert_eq!(ProcessControlError::NotFound.message(), "Process not found");
    assert_eq!(ProcessControlError::OperationFailed.message(), "Failed to kill process");
    assert!(ProcessControlError::OperationNotSupported.message().contains("not available"));
    assert_eq!(
        DashboardError::MutexPoisoned("thread panicked".to_string()).message(),
        "Mutex lock was poisoned: thread panicked"
    );
    assert_eq!(
        DashboardError::MutexLockFailed("busy".to_string()).message(),
        "Failed to acquire mutex lock: busy"
    );
    assert_eq!(
        DashboardError::SystemRefreshFailed("probe".to_string()).message(),
        "System refresh failed: probe"
    );
}
