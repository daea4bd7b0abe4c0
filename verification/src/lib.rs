//! The logic of `nh`, a helper for NixOS, proved against its contracts.
pub mod branches;
pub mod config;
pub mod files;
pub mod flamegraph;
pub mod github;
pub mod paths;
pub mod remote;
pub mod render;
pub mod search;
pub mod startup;
pub mod text;
