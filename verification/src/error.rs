//! Error types of the monitor.

use vstd::prelude::*;
use vstd::string::StringExecFns;

verus! {

/// Errors of the shared-state layer around the monitor.
#[derive(Debug)]
pub enum DashboardError {
    /// The exclusive lock was poisoned (a holder panicked while holding it).
    MutexPoisoned(String),
    /// The exclusive lock could not be acquired.
    MutexLockFailed(String),
    /// A refresh cycle failed as a whole.
    SystemRefreshFailed(String),
}

impl DashboardError {
    /// A human-readable description of the error.
    pub fn message(&self) -> (r: String)
        ensures
            match self {
                DashboardError::MutexPoisoned(s) => r@ == "Mutex lock was poisoned: "@ + s@,
                DashboardError::MutexLockFailed(s) => r@ == "Failed to acquire mutex lock: "@
                    + s@,
                DashboardError::SystemRefreshFailed(s) => r@ == "System refresh failed: "@ + s@,
            },
    {
        match self {
            DashboardError::MutexPoisoned(s) => String::from_str(
                "Mutex lock was poisoned: ",
            ).concat(s.as_str()),
            DashboardError::MutexLockFailed(s) => String::from_str(
                "Failed to acquire mutex lock: ",
            ).concat(s.as_str()),
            DashboardError::SystemRefreshFailed(s) => String::from_str(
                "System refresh failed: ",
            ).concat(s.as_str()),
        }
    }
}

/// Outcomes of a process-control request that did not succeed.
#[derive(Debug, Clone, Copy, PartialEq, Eq, Structural)]
pub enum ProcessControlError {
    /// The pid is absent from the current raw process table.
    NotFound,
    /// The termination request was issued and the operating system reported failure.
    OperationFailed,
    /// The platform adapter has no graceful-terminate primitive distinct from a kill.
    OperationNotSupported,
}

impl ProcessControlError {
    /// A human-readable description of the error.
    pub fn message(&self) -> (r: String)
        ensures
            match self {
                ProcessControlError::NotFound => r@ == "Process not found"@,
                ProcessControlError::OperationFailed => r@ == "Failed to kill process"@,
                ProcessControlError::OperationNotSupported => r@
                    == "Terminate is not available on this platform"@,
            },
    {
        match self {
            ProcessControlError::NotFound => String::from_str("Process not found"),
            ProcessControlError::OperationFailed => String::from_str("Failed to kill process"),
            ProcessControlError::OperationNotSupported => String::from_str(
                "Terminate is not available on this platform",
            ),
        }
    }
}

} // verus!
