//! Validation of Kubernetes label and annotation keys.
//!
//! A key is an optional DNS-subdomain prefix, a `/`, and a name segment.
//! The crate splits a key at its last `/`, checks the length of each part,
//! matches the whole key against the key grammar and gathers every
//! offending key of a collection into one report.

pub mod segments;
pub mod text;

pub mod defect;
pub mod pattern;
pub mod report;
pub mod validator;
pub mod laws;
