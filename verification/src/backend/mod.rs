//! The data and decisions of the Tauri command backend: the records it sends
//! to its web frontend, its command line for the engine, progress parsing of
//! the legacy log format, and the scan state it keeps.

pub mod progress;
pub mod scan;
pub mod system;
pub mod types;
