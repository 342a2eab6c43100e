//! The extension SDK: declarations, grants, results and the host-side checks.

pub mod availability;
pub mod catalog;
pub mod exchange;
pub mod hosting;
pub mod loading;
pub mod manifest_rules;
pub mod model;
pub mod results;
