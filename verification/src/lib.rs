//! Server-side authorization core for off-chain payment channels.
//!
//! A client debits a unidirectional payment channel with every API request.
//! This crate authenticates each request, checks that the channel was debited
//! by the price of the call, and keeps the per-channel record that the next
//! request is held against.

pub mod channel;
pub mod error;
pub mod headers;
pub mod hex;
pub mod middleware;
pub mod rate_limit;
pub mod types;
pub mod utils;
