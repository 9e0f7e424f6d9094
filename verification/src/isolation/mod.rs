//! Isolation of environments: isolation levels, namespace and cgroup
//! settings, network and filesystem policies, processes and containers.

pub mod config;
pub mod container;
pub mod filesystem;
pub mod network;
pub mod process;

use vstd::prelude::*;
use crate::error::BlastResult;
use crate::isolation::config::{CGroupConfig, IsolationConfig, IsolationLevel, NamespaceConfig};
use crate::isolation::container::Container;
use crate::isolation::filesystem::FilesystemPolicy;
use crate::isolation::network::NetworkPolicy;
use crate::isolation::process::ProcessManager;

verus! {

/// The isolation an environment runs under: a process manager, and a
/// container once one is set up.
pub struct IsolationManager {
    process_isolation: Option<ProcessManager>,
    container_isolation: Option<Container>,
}

impl IsolationManager {
    /// Whether processes are managed.
    pub closed spec fn has_process_isolation(&self) -> bool {
        self.process_isolation is Some
    }

    /// Whether a container is set up.
    pub closed spec fn has_container_isolation(&self) -> bool {
        self.container_isolation is Some
    }

    /// Process isolation with no processes yet, and no container.
    pub fn new() -> (m: Self)
        ensures
            m.has_process_isolation(),
            !m.has_container_isolation(),
    {
        IsolationManager { process_isolation: Some(ProcessManager::new()), container_isolation: None }
    }

    /// The process manager, if processes are managed.
    pub fn process_isolation(&self) -> (r: Option<&ProcessManager>)
        ensures
            r is Some == self.has_process_isolation(),
    {
        self.process_isolation.as_ref()
    }

    /// The container, if one is set up.
    pub fn container_isolation(&self) -> (r: Option<&Container>)
        ensures
            r is Some == self.has_container_isolation(),
    {
        self.container_isolation.as_ref()
    }
}

impl Default for IsolationManager {
    /// Neither processes nor a container.
    fn default() -> (m: Self)
        ensures
            !m.has_process_isolation(),
            !m.has_container_isolation(),
    {
        IsolationManager { process_isolation: None, container_isolation: None }
    }
}

/// The settings of an isolated environment, taken from its configuration.
pub struct EnhancedIsolation {
    level: IsolationLevel,
    namespace_config: NamespaceConfig,
    cgroup_config: CGroupConfig,
    network_policy: NetworkPolicy,
    filesystem_policy: FilesystemPolicy,
}

impl EnhancedIsolation {
    /// The isolation described by `config`.
    pub fn new(config: IsolationConfig) -> (r: BlastResult<Self>)
        ensures
            r matches Ok(i) && i.level_spec() == config.level && i.namespace_spec() == config.namespace_config
                && i.cgroup_spec() == config.cgroup_config && i.network_spec() == config.network_policy
                && i.filesystem_spec() == config.filesystem_policy,
    {
        Ok(EnhancedIsolation {
            level: config.level,
            namespace_config: config.namespace_config,
            cgroup_config: config.cgroup_config,
            network_policy: config.network_policy,
            filesystem_policy: config.filesystem_policy,
        })
    }

    /// The isolation level.
    pub closed spec fn level_spec(&self) -> IsolationLevel {
        self.level
    }

    /// The namespace settings.
    pub closed spec fn namespace_spec(&self) -> NamespaceConfig {
        self.namespace_config
    }

    /// The cgroup settings.
    pub closed spec fn cgroup_spec(&self) -> CGroupConfig {
        self.cgroup_config
    }

    /// The network policy.
    pub closed spec fn network_spec(&self) -> NetworkPolicy {
        self.network_policy
    }

    /// The filesystem policy.
    pub closed spec fn filesystem_spec(&self) -> FilesystemPolicy {
        self.filesystem_policy
    }

    /// The isolation level.
    pub fn level(&self) -> (l: IsolationLevel)
        ensures
            l == self.level_spec(),
    {
        self.level
    }

    /// The namespace settings.
    pub fn namespace_config(&self) -> (c: &NamespaceConfig)
        ensures
            *c == self.namespace_spec(),
    {
        &self.namespace_config
    }

    /// The cgroup settings.
    pub fn cgroup_config(&self) -> (c: &CGroupConfig)
        ensures
            *c == self.cgroup_spec(),
    {
        &self.cgroup_config
    }

    /// The network policy.
    pub fn network_policy(&self) -> (p: &NetworkPolicy)
        ensures
            *p == self.network_spec(),
    {
        &self.network_policy
    }

    /// The filesystem policy.
    pub fn filesystem_policy(&self) -> (p: &FilesystemPolicy)
        ensures
            *p == self.filesystem_spec(),
    {
        &self.filesystem_policy
    }
}

} // verus!
