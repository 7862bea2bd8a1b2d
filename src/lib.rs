//! Core of a tray utility that switches secondary monitors off and back on.
//!
//! The library holds the decisions: which outputs are enumerated and how they
//! are named, which of them is primary, which are candidates for switching
//! off, and how the saved display modes move the session between its enabled
//! and disabled states. The operating-system calls are made by the caller,
//! which hands their outcomes to the functions here.

pub mod mode;
pub mod store;
pub mod config;
pub mod power;
pub mod naming;
pub mod monitors;
pub mod laws;
pub mod menu;
