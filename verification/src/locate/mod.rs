//! Locating the daemon's configuration file and the profile list.

pub mod paths;
pub mod plan;
pub mod scan;
pub mod walk;
