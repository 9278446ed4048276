//! Provisioning of browser-automation fixtures: version resolution over a
//! release catalog, the on-disk artifact cache layout and install plan, driver
//! readiness detection, two-phase termination, and session bookkeeping.

pub mod cache;
pub mod caps;
pub mod catalog;
pub mod error;
pub mod launcher;
pub mod mgr;
pub mod port;
pub mod readiness;
pub mod session;
pub mod termination;
pub mod text;
