//! Error values shared by every part of the library.

use vstd::prelude::*;
use vstd::string::StringExecFns;

verus! {

/// Error raised by Blast operations; each variant carries its message.
#[derive(Debug, Clone)]
pub enum BlastError {
    Io(String),
    Python(String),
    Package(String),
    Environment(String),
    Cache(String),
    Resolution(String),
    Config(String),
    Snapshot(String),
    ImportHook(String),
    InvalidPath(String),
    Network(String),
    Serialization(String),
    Version(String),
    Lock(String),
    Pattern(String),
    Daemon(String),
    CommandFailed(String, String),
    ParseError(String),
    Other(String),
    Sync(String),
    Security(String),
    Manifest(String),
    Unknown(String),
    State(String),
}

/// Result type used across the library.
pub type BlastResult<T> = Result<T, BlastError>;

impl BlastError {
    /// Create a new Python error
    pub fn python(msg: &str) -> (e: BlastError)
        ensures
            e matches BlastError::Python(m) && m@ == msg@,
    {
        BlastError::Python(String::from_str(msg))
    }

    /// Create a new package error
    pub fn package(msg: &str) -> (e: BlastError)
        ensures
            e matches BlastError::Package(m) && m@ == msg@,
    {
        BlastError::Package(String::from_str(msg))
    }

    /// Create a new environment error
    pub fn environment(msg: &str) -> (e: BlastError)
        ensures
            e matches BlastError::Environment(m) && m@ == msg@,
    {
        BlastError::Environment(String::from_str(msg))
    }

    /// Create a new cache error
    pub fn cache(msg: &str) -> (e: BlastError)
        ensures
            e matches BlastError::Cache(m) && m@ == msg@,
    {
        BlastError::Cache(String::from_str(msg))
    }

    /// Create a new resolution error
    pub fn resolution(msg: &str) -> (e: BlastError)
        ensures
            e matches BlastError::Resolution(m) && m@ == msg@,
    {
        BlastError::Resolution(String::from_str(msg))
    }

    /// Create a new configuration error
    pub fn config(msg: &str) -> (e: BlastError)
        ensures
            e matches BlastError::Config(m) && m@ == msg@,
    {
        BlastError::Config(String::from_str(msg))
    }

    /// Create a new snapshot error
    pub fn snapshot(msg: &str) -> (e: BlastError)
        ensures
            e matches BlastError::Snapshot(m) && m@ == msg@,
    {
        BlastError::Snapshot(String::from_str(msg))
    }

    /// Create a new import hook error
    pub fn import_hook(msg: &str) -> (e: BlastError)
        ensures
            e matches BlastError::ImportHook(m) && m@ == msg@,
    {
        BlastError::ImportHook(String::from_str(msg))
    }

    /// Create a new network error
    pub fn network(msg: &str) -> (e: BlastError)
        ensures
            e matches BlastError::Network(m) && m@ == msg@,
    {
        BlastError::Network(String::from_str(msg))
    }

    /// Create a new serialization error
    pub fn serialization(msg: &str) -> (e: BlastError)
        ensures
            e matches BlastError::Serialization(m) && m@ == msg@,
    {
        BlastError::Serialization(String::from_str(msg))
    }

    /// Create a new version error
    pub fn version(msg: &str) -> (e: BlastError)
        ensures
            e matches BlastError::Version(m) && m@ == msg@,
    {
        BlastError::Version(String::from_str(msg))
    }

    /// Create a new lock error
    pub fn lock(msg: &str) -> (e: BlastError)
        ensures
            e matches BlastError::Lock(m) && m@ == msg@,
    {
        BlastError::Lock(String::from_str(msg))
    }

    /// Create a new other error
    pub fn other(msg: &str) -> (e: BlastError)
        ensures
            e matches BlastError::Other(m) && m@ == msg@,
    {
        BlastError::Other(String::from_str(msg))
    }

    /// Create a new daemon error
    pub fn daemon(msg: &str) -> (e: BlastError)
        ensures
            e matches BlastError::Daemon(m) && m@ == msg@,
    {
        BlastError::Daemon(String::from_str(msg))
    }

    /// Create a new sync error
    pub fn sync(msg: &str) -> (e: BlastError)
        ensures
            e matches BlastError::Sync(m) && m@ == msg@,
    {
        BlastError::Sync(String::from_str(msg))
    }

    /// Create a new security error
    pub fn security(msg: &str) -> (e: BlastError)
        ensures
            e matches BlastError::Security(m) && m@ == msg@,
    {
        BlastError::Security(String::from_str(msg))
    }

    /// Create a new state error
    pub fn state(msg: &str) -> (e: BlastError)
        ensures
            e matches BlastError::State(m) && m@ == msg@,
    {
        BlastError::State(String::from_str(msg))
    }
}

} // verus!
