//! Service-endpoint layer of a publish/subscribe messaging client.
//!
//! An endpoint merges a subscription to one subject with a one-shot broadcast
//! shutdown signal into a single pollable stream of requests, and a shared
//! statistics registry accumulates per-endpoint counters for monitoring.
//! The transport itself (subscription creation, message delivery, the command
//! queue, replying) is an external collaborator: the endpoint here is the
//! decision core that a driver feeds with its observations.

pub mod endpoint;
pub mod stats;
