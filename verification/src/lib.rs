//! Server-side protocol engine for a network block device: wire codec for
//! options, requests and replies, the structured-reply chunking layer, and
//! the per-connection negotiation and transmission state machine.
pub mod export;
pub mod message;
pub mod options;
pub mod reply;
pub mod request;
pub mod session;
pub mod structured;
pub mod wire;
