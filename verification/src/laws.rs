//! What holds of the driver as a whole, across its functions.
//!
//! Each law is a proof function over the specifications that the functions' own contracts use.

pub mod adoption;
pub mod commands;
pub mod feeds;
pub mod flow;
pub mod house;
pub mod keys;
pub mod listing;
pub mod offers;
pub mod remotes;
pub mod setup;
pub mod statuses;
pub mod tables;
pub mod values;
pub mod views;
pub mod wire;
pub mod words;
pub mod zones;
