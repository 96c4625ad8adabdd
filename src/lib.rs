//! Driver-station protocol engine for an FRC-style robot controller.
//!
//! The library holds the wire codec (UDP control and telemetry packets, TCP
//! framing and messages), the connection supervisor's decisions, the
//! driver-station command surface, the practice-match scheduler, and the
//! decisions behind controller slots and global hotkeys.

pub mod config;
pub mod connection;
pub mod driver_station;
pub mod hotkeys;
pub mod incoming;
pub mod joysticks;
pub mod laws;
pub mod outgoing;
pub mod practice;
pub mod tcp;
pub mod types;
