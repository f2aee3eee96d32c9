//! A human-in-the-loop approval gate for sampling requests.
//!
//! Extensions ask for a language-model completion; every such request waits in
//! a registry of pending requests until an operator approves or rejects it.
//! Observers are told of each new request through a broadcast hub.

pub mod approval;
pub mod channel;
pub mod laws;
pub mod routes;
pub mod sampling_handler;
pub mod state;
