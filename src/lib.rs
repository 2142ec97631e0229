use vstd::prelude::*;

pub mod network;
pub mod scanner;

verus! {

/// The identity record that a host running the discovery service reports.
#[derive(Debug, Clone)]
pub struct HostInfo {
    pub hostname: String,
    pub hostipv4: String,
}

/// The mathematical value of a record: its hostname and its address text.
pub type HostView = (Seq<char>, Seq<char>);

impl View for HostInfo {
    type V = HostView;

    open spec fn view(&self) -> HostView {
        (self.hostname@, self.hostipv4@)
    }
}

/// The well-known service port.
pub const LCN_PORT: u16 = 7979;

/// Connection timeout for each probe, in seconds.
pub const SCAN_TIMEOUT_SECS: u64 = 2;

/// The most probes that may be in flight at once.
pub const MAX_CONCURRENT_SCANS: usize = 64;

/// Failures of the service itself (per-address failures are never errors).
#[derive(Debug)]
pub enum LcnError {
    LocalIpError(String),
    ScanError(String),
    HttpError(String),
    IoError(String),
}

} // verus!
