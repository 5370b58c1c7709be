//! ST-Link probes: what they are, what they are bound to, and what is behind
//! them.
pub mod controller;
pub mod driver;
pub mod target;
