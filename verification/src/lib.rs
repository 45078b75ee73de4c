//! Core of a serverless LAN chat: peers discover each other, talk over
//! publish/subscribe topics (shared rooms and derived direct-message
//! channels), resolve usernames and room lists through a distributed
//! key-value directory, and exchange files on request.
//!
//! This crate holds the coordination logic — topic derivation, the shared
//! directory state, the record codec, the command/event planner of the
//! network actor, and the username reconciliation pass — with verified
//! contracts. The unverified shell (terminal UI, the libp2p swarm, file
//! and log I/O) lives outside and drives this crate with plain values.

pub mod actor;
pub mod codec;
pub mod directory;
pub mod names;
pub mod state;
pub mod table;
pub mod topic;
pub mod ui;
