//! Configuration: the effective policy, its fingerprints and the layering of
//! configuration sources.

pub mod policy;
pub mod resolver;
pub mod explain;
pub mod sources;
