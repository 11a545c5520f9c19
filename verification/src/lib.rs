//! Host-side orchestration core for a detached proving engine.
//!
//! The crate maps operation names to argument schemas and journal layouts,
//! encodes request payloads, decodes the byte journals committed by an
//! execution image, provisions images for caller-supplied programs, binds
//! session and task metadata, and persists proof artifacts.

pub mod artifact;
pub mod dispatch;
pub mod engine;
pub mod errors;
pub mod fixed;
pub mod journal;
pub mod kernels;
pub mod keys;
pub mod ops;
pub mod provision;
pub mod session;
pub mod text;
