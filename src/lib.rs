//! A sandbox that takes compiled capsules in blocks over a request/response
//! protocol, keeps them under resource names, runs them on request and drops
//! them again.
//!
//! `sandbox` holds the staging buffer and the upload logic, `registry` the
//! live capsules, `request` the decoding of requests and the building of
//! responses, and `lifecycle` and `exchange` what holds of sequences of
//! requests. The engine
//! that builds and runs capsules is reached through `engine::CapsuleEngine`.
//! `capsule` and `reading` hold the logic of the example capsules that run in
//! the sandbox, and `host` what the host offers them.
pub mod block;
pub mod capsule;
pub mod engine;
pub mod exchange;
pub mod host;
pub mod lifecycle;
pub mod reading;
pub mod registry;
pub mod request;
pub mod sandbox;
