//! Synchronisation client for a trader's marketplace listings, with a small
//! column-oriented table layer for the snapshots it produces.
//!
//! The crate holds the decisions only: which request to send, how a reply is
//! classified and decoded, how tables are built and recombined. Sleeping,
//! sending and storing are left to the caller, who feeds the outcomes back in.

pub mod auth;
pub mod convert;
pub mod error;
pub mod helper;
pub mod json;
pub mod pipeline;
pub mod structs;
pub mod table;
pub mod text;
pub mod wfm_client;
pub mod wire;
