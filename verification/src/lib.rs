//! Swarm CI: the deterministic core of a self-healing pull-request fixer.
//!
//! The library owns the truth of the system: the checked task state machine,
//! lease/heartbeat bookkeeping with attempt-based fencing, the provenance-based
//! merge gate, and the pure pieces of the agent layer (plan extraction and
//! sandbox-path safety, pull-request URL parsing, prompt construction).
//! Everything that waits, spawns, talks to a network or touches a disk lives
//! outside it and hands the library plain values.

pub mod ids;
pub mod task;
pub mod error;
pub mod text;
pub mod chars;
pub mod events;
pub mod gate;
pub mod lease;
pub mod mail;
pub mod supervisor;
pub mod workspace;
pub mod llm;
pub mod agents;
pub mod plan;
pub mod context;
pub mod implementer;
pub mod worker;
pub mod fixture;
pub mod api;
