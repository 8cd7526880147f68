//! Lutron Caséta over LEAP, the protocol that every current Smart Bridge speaks.
//!
//! LEAP is one JSON object per line over a TLS socket. The controller owns the socket and hands
//! over whatever bytes arrived; everything above it is here:
//!
//! - [`setup`] and [`listing`]: pairing a bridge and finding what is behind it, step by step
//! - [`candidates`]: what was found, as devices to adopt
//! - [`zones`], [`remotes`] and [`sensors`]: what a device does on a command, a status, a press
//! - [`driver`]: the functions that the controller calls
//! - [`framing`], [`messages`] and [`tables`]: lines, requests, and the bridge's vocabulary
//! - [`host`], [`json`] and [`text`]: the values that all of it is about
//! - [`codec`]: where JSON meets `serde_json`, and the only place where anything is trusted
//! - [`laws`]: what holds of the driver as a whole
//!
//! A function's contract says exactly what it returns, over the views of its arguments. None has
//! a precondition, so that whatever a bridge or a controller sends is answered.

pub mod candidates;
pub mod codec;
pub mod device;
pub mod driver;
pub mod framing;
pub mod host;
pub mod json;
pub mod laws;
pub mod listing;
pub mod messages;
pub mod remotes;
pub mod sensors;
pub mod setup;
pub mod tables;
pub mod text;
pub mod zones;

pub use crate::device::CasetaLeap;
