//! Presence and media-state reconciliation for a small fleet of devices.
//!
//! Devices push periodic heartbeats to a collector; the collector keeps one
//! record per device plus a single global manual-offline switch, and derives
//! an authoritative online/offline/now-playing view on every read.  The
//! client side samples local idle time and media state on two independent
//! loops and throttles media pushes.  This crate holds the rule set itself:
//! storage, networking and the platform probes live with the caller.

pub mod client;
pub mod clock;
pub mod cms;
pub mod media;
pub mod presence;
pub mod text;
pub mod visitors;

use vstd::prelude::*;

verus! {

/// Seconds without an accepted heartbeat after which a device counts as
/// offline regardless of what it last reported.
pub const STALE_WINDOW_SECS: i64 = 300;

} // verus!
