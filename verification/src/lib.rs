//! A synchronous control facade over a long-running payment-network node.
//!
//! The crate assembles a node from a base configuration plus optional
//! pluggable subsystem sources, serializes all access to the node behind a
//! single mutual-exclusion boundary, exposes a blocking "next event" protocol
//! with exactly-once-until-acknowledged delivery, and translates between the
//! node's domain representations and stable wire-shaped records.

pub mod entropy;
pub mod errors;
pub mod hexcode;
pub mod laws;
pub mod config;
pub mod handle;
pub mod wire;
