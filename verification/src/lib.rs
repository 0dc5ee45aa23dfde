//! The logic of fishtank, a terminal UI for watching and driving many BMCs
//! (baseboard management controllers) at once over IPMI and Redfish.
//!
//! Everything here is a function of plain values: what the parsers make of a
//! BMC's replies, which rows an action reaches, when a held key confirms it,
//! what each key does. Terminal, network and clock live outside and hand their
//! values in.

pub mod app;
pub mod bmc;
pub mod inventory;
pub mod ratata;
pub mod text;
pub mod text_laws;
