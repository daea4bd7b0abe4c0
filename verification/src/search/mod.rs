//! The searches: online and offline, for packages, options, pull requests
//! and issues.
pub mod backend;
pub mod issues;
pub mod offline;
pub mod online;
pub mod prs;
pub mod shown;
