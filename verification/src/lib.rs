//! A live system-metrics monitor: it samples CPU, memory, disk, network and
//! process-table state from the operating system through `sysinfo`, aggregates
//! per-process samples into per-name summaries, throttles the expensive disk
//! enumeration, and exposes the result through a query/mutation API.

pub mod error;
pub mod percent;
pub mod units;
pub mod model;
pub mod aggregate;
mod probes;
pub mod system;
