//! Safe, read-only media inventory and exact-duplicate planning.
//!
//! The crate holds the decision logic of the inventory tool: lossless path
//! encoding, outcome resolution, effective-policy fingerprints, exact
//! duplicate grouping, review plans, PNG byte validation and the extension
//! catalog rules. Reading files, running processes and printing stay with the
//! command-line front end.

pub mod text;
pub mod json;
pub mod digest;
pub mod sorting;
pub mod base64;
pub mod filesystem;
pub mod domain;
pub mod outcome;
pub mod render;
pub mod inventory;
pub mod cli;
pub mod signals;
pub mod configuration;
pub mod subprocess;
pub mod hashing;
pub mod discovery;
pub mod artifact_set;
pub mod observation;
pub mod analysis_cache;
pub mod duplicates;
pub mod planning;
pub mod summary;
pub mod reporting;
pub mod extensions;
pub mod png_candidate;
pub mod png_validation;
pub mod media_probe;
pub mod media_profile;
pub mod media_evidence;
pub mod diagnostic_json;
pub mod media_provider;
pub mod attempt;
pub mod scan_result;
