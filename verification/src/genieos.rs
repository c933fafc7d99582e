//! Messages from the operating system underneath the runtime, and what applying them did.

use vstd::prelude::*;
use crate::connectivity::{ConnectivityApplyResult, ConnectivityReport, StateApplyResult, StateReport};
use crate::hardware::HardwareAdapterStatus;

verus! {

/// A message from the operating system: a heartbeat, an adapter status, or a report.
#[derive(Debug, Clone)]
pub enum GenieOsMessage {
    Heartbeat { source: String, monotonic_ms: u64 },
    AdapterStatus { source: String, status: HardwareAdapterStatus },
    ConnectivityReport { report: ConnectivityReport },
    StateReport { report: StateReport },
}

/// What applying an operating-system message did.
#[derive(Debug, Clone)]
pub enum GenieOsApplyResult {
    Heartbeat { source: String, monotonic_ms: u64 },
    AdapterStatus { source: String, accepted: bool },
    ConnectivityApplied { result: ConnectivityApplyResult },
    StateApplied { result: StateApplyResult },
}

} // verus!
