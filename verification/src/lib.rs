//! Haptic control core: turns a sampled combat signal into vibration
//! commands for a changing set of devices.
//!
//! Intensities are exact fractions, so every rule of the control loop is a
//! statement over integers. Device input and output, timers and the host
//! process are left to the caller, which feeds plain values in and carries
//! the planned commands out.

pub mod config;
pub mod control;
pub mod dispatcher;
pub mod mapper;
pub mod offset;
pub mod ratio;
pub mod registry;
pub mod signal;
