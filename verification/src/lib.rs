//! Compares the chain head reported by several JSON-RPC providers.
//!
//! The crate holds the decisions of a small fan-out service: which providers
//! are queried, what becomes of each provider's answer, and how the answers
//! are merged into one digest. Performing the HTTP calls is left to the
//! caller, who hands each outcome back as a plain value.

pub mod error;
pub mod provider;
pub mod rpc;
pub mod aggregate;
pub mod endpoint;
