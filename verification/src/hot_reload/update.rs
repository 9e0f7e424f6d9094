//! What a hot-reload update changes, and how far it has got.

use vstd::prelude::*;
use crate::package_state::PackageInfo;

verus! {

/// What a hot-reload update changes. A package is carried as the record
/// the package state keeps of it.
#[derive(Debug, Clone)]
pub enum HotReloadUpdateType {
    /// Package update
    Package(PackageInfo),
    /// Environment variable update: its name and new value
    EnvVar(String, String),
    /// Python version update
    PythonVersion(String),
}

/// Status of an update
#[derive(Debug, Clone, PartialEq, Eq)]
pub enum HotReloadUpdateStatus {
    Pending,
    InProgress,
    Completed,
    Failed(String),
}

impl HotReloadUpdateStatus {
    /// Whether the update has ended, successfully or not.
    pub fn is_finished(&self) -> (b: bool)
        ensures
            b == (self is Completed || self is Failed),
    {
        match self {
            HotReloadUpdateStatus::Completed | HotReloadUpdateStatus::Failed(_) => true,
            _ => false,
        }
    }
}

} // verus!
