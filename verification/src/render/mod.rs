//! Lines to show to the user.
pub mod line;
pub mod prs;
