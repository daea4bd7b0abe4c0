//! What `nh` asks of GitHub, and what it makes of the answers.
pub mod auth;
pub mod date;
pub mod issues;
pub mod json;
pub mod prs;
pub mod reachability;
pub mod transport;
pub mod types;
