//! Hot reloading of environments: its settings, the import statements read
//! from Python sources, and the status of an update.

pub mod config;
pub mod import;
pub mod update;
