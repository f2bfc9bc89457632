//! Virtualization and optional-feature probes, and a hardware fingerprint
//! assembled from sanitized identifiers of the machine.
pub mod encode;
pub mod factor_set;
pub mod fingerprint;
pub mod laws;
pub mod platform;
pub mod probe;
pub mod query;
pub mod records;
pub mod text;
