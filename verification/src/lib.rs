//! Trust beacon: ships emit trust events about other ships, observers
//! collect them and derive a consensus on how far a ship can be trusted.
//!
//! Signal strengths are IEEE-754 binary32 values. The library stores and
//! compares them by their bit pattern (see `signal`); arithmetic on them
//! (scaling by a decay factor, averaging) is done by the caller.

pub mod adapter;
pub mod beacon;
pub mod event;
pub mod laws;
pub mod level;
pub mod signal;

pub use adapter::FluxTrustAdapter;
pub use beacon::{BeaconStats, TrustBeacon};
pub use event::TrustEvent;
pub use level::FluxTrustLevel;
