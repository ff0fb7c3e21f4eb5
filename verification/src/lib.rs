//! Discovery and reconciliation of compute inventory across Proxmox
//! virtualization clusters.
//!
//! The library covers the decision logic of the pipeline: the canonical
//! host record, the multi-strategy IP-resolution rules, the merge of live
//! cluster data with user overrides and manual entries, the display sort
//! order, the per-cluster fetch protocol, and the session state driven by
//! key events. Network and file I/O live outside the library and hand it
//! plain values.

pub mod ansible;
pub mod config;
pub mod fetch;
pub mod host;
pub mod ipv4;
pub mod reconcile;
pub mod resolve;
pub mod session;
pub mod sort;
pub mod text;

pub use host::Host;
pub use host::HostType;
pub use host::IpOverride;
pub use host::ManualHost;
