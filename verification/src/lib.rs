//! Stable, prefixed names for network interfaces.
//!
//! A device that is seen for the first time gets the next free name of the
//! form `<prefix><number>`; a device that already has a link record keeps the
//! name recorded for it.

pub mod address;
pub mod cmdline;
pub mod config;
pub mod decimal;
pub mod error;
pub mod laws;
pub mod link;
pub mod orchestrator;
pub mod store;
pub mod text;
