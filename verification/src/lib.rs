//! Verified core of the SwiftBeaver forensic carver front end.

pub mod backend;
pub mod config;
pub mod devices;
pub mod metadata;
pub mod scan;
pub mod text;
pub mod ui;
