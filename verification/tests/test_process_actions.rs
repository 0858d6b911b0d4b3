use rust_dashboard::error::ProcessControlError;
use rust_dashboard::system::SystemMonitor;

#[test]
fn test_kill_process_invalid_pid() {
    let mut mon = SystemMonitor::new();
    let invalid_pid = u32::MAX;
    let result = mon.kill_process(invalid_pid);
    // Should return error for invalid PID
    assert!(result.is_err());
}

#[test]
fn test_kill_process_invalid_pid_is_not_found() {
    let mut mon = SystemMonitor::new();
    let result = mon.kill_process(u32::MAX);
    assert_eq!(result, Err(ProcessControlError::NotFound));
    assert_eq!(result.unwrap_err().message(), "Process not found");
}

#[test]
fn test_terminate_process_not_available() {
    let mut mon = SystemMonitor::new();
    // Take a pid that the monitor itself reports as present.
    let procs = mon.combined_process_list();
    assert!(!procs.is_empty());
    let pid = procs[0].pids[0];
    let result = mon.terminate_process(pid);
    // Terminate is not available, should return error
    assert!(result.is_err());
    assert!(result.unwrap_err().message().contains("not available"));
}

#[test]
fn test_terminate_process_invalid_pid_is_not_found() {
    let mut mon = SystemMonitor::new();
    let result = mon.terminate_process(u32::MAX);
    assert_eq!(result, Err(ProcessControlError::NotFound));
}

#[test]
fn test_process_actions_test_process_details_invalid_pid() {
    let mon = SystemMonitor::new();
    let invalid_pid = u32::MAX;
    let details = mon.process_details(invalid_pid);
    assert!(details.is_none());
}
