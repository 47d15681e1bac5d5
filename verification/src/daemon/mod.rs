//! The daemon, one for each machine: it owns the shared proxy, leases ports, and
//! gathers what the instances report.

pub mod client;
pub mod laws;
pub mod log_ring;
pub mod protocol;
pub mod state;
pub mod state_laws;
