//! Verified core of a content-addressed object gateway.
//!
//! The crate models and verifies the gateway's own control logic: the
//! tiered access classifier, the per-tier token-bucket rate limiter, the
//! request dispatcher, and the settlement orchestrator that drives pending
//! records through an external bundling service with bounded concurrency.
//! External collaborators (object store, metadata store, token verifier,
//! bundling service) are consumed at their boundaries only.

pub mod access;
pub mod config;
pub mod dispatch;
pub mod download;
pub mod hashing;
pub mod limiter;
pub mod records;
pub mod settle;
pub mod text;
pub mod upload;
