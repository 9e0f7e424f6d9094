//! Recorded state of an environment: its variables, its packages, its
//! container, its network counters and its security settings.

use vstd::prelude::*;
use crate::strmap::StrMap;
use crate::time::system_now;

verus! {

/// Container status
#[derive(Debug, Clone, Copy, PartialEq, Eq, Structural)]
pub enum ContainerStatus {
    Created,
    Running,
    Paused,
    Stopped,
    Deleted,
}

impl Default for ContainerStatus {
    fn default() -> (s: Self)
        ensures
            s == ContainerStatus::Created,
    {
        ContainerStatus::Created
    }
}

/// Network attached to a container
#[derive(Debug)]
pub struct NetworkState {
    pub id: String,
    pub name: String,
    pub network_type: String,
    pub ip_address: Option<String>,
    pub gateway: Option<String>,
    pub dns: Vec<String>,
}

/// A mount of a container
#[derive(Debug, Clone)]
pub struct MountState {
    pub source: String,
    pub target: String,
    pub mount_type: String,
    pub options: Vec<String>,
}

/// Recorded state of a container
#[derive(Debug)]
pub struct ContainerState {
    pub id: Option<String>,
    pub status: ContainerStatus,
    pub pid: Option<u32>,
    pub network: Option<NetworkState>,
    pub mounts: Vec<MountState>,
}

impl Default for ContainerState {
    fn default() -> (s: Self)
        ensures
            s.id is None,
            s.status == ContainerStatus::Created,
            s.pid is None,
            s.network is None,
            s.mounts@.len() == 0,
    {
        ContainerState { id: None, status: ContainerStatus::default(), pid: None, network: None, mounts: Vec::new() }
    }
}

/// An installed package
#[derive(Debug)]
pub struct PackageInfo {
    pub name: String,
    pub version: String,
    pub installed_at: std::time::SystemTime,
    pub dependencies: Vec<String>,
}

/// Recorded package state
#[derive(Debug)]
pub struct PackageState {
    pub installed: StrMap<PackageInfo>,
    pub requirements: Vec<String>,
    pub constraints: Vec<String>,
    pub sources: Vec<String>,
}

impl Default for PackageState {
    fn default() -> (s: Self)
        ensures
            s.installed@ == Map::<Seq<char>, PackageInfo>::empty(),
            s.requirements@.len() == 0,
            s.constraints@.len() == 0,
            s.sources@.len() == 0,
    {
        PackageState { installed: StrMap::new(), requirements: Vec::new(), constraints: Vec::new(), sources: Vec::new() }
    }
}

/// Network counters
#[derive(Debug, Clone, Copy, PartialEq, Eq, Structural)]
pub struct NetworkUsage {
    pub rx_bytes: u64,
    pub tx_bytes: u64,
    pub rx_packets: u64,
    pub tx_packets: u64,
}

impl Default for NetworkUsage {
    fn default() -> (u: Self)
        ensures
            u == (NetworkUsage { rx_bytes: 0, tx_bytes: 0, rx_packets: 0, tx_packets: 0 }),
    {
        NetworkUsage { rx_bytes: 0, tx_bytes: 0, rx_packets: 0, tx_packets: 0 }
    }
}

/// Recorded security state
#[derive(Debug, Clone)]
pub struct SecurityState {
    pub capabilities: Vec<String>,
    pub seccomp_enabled: bool,
    pub apparmor_profile: Option<String>,
    pub selinux_context: Option<String>,
}

impl Default for SecurityState {
    fn default() -> (s: Self)
        ensures
            s.capabilities@.len() == 0,
            !s.seccomp_enabled,
            s.apparmor_profile is None,
            s.selinux_context is None,
    {
        SecurityState { capabilities: Vec::new(), seccomp_enabled: false, apparmor_profile: None, selinux_context: None }
    }
}

/// Environment state: identity, variables and the recorded states of its
/// packages, container and security. The Python version is held as text;
/// resource usage and synchronisation state are kept elsewhere.
#[derive(Debug)]
pub struct EnvironmentState {
    pub id: String,
    pub name: String,
    pub path: String,
    pub python_version: String,
    pub created_at: std::time::SystemTime,
    pub modified_at: std::time::SystemTime,
    pub env_vars: StrMap<String>,
    pub package_state: PackageState,
    pub container_state: ContainerState,
    pub security_state: SecurityState,
}

impl EnvironmentState {
    /// A new state, created and modified now, with no variables and default
    /// package, container and security states.
    pub fn new(id: String, name: String, path: String, python_version: String) -> (s: Self)
        ensures
            s.id == id && s.name == name && s.path == path && s.python_version == python_version,
            s.created_at == s.modified_at,
            s.env_vars@ == Map::<Seq<char>, String>::empty(),
            s.package_state.installed@ == Map::<Seq<char>, PackageInfo>::empty(),
            s.container_state.id is None && s.container_state.status == ContainerStatus::Created,
            s.security_state.capabilities@.len() == 0 && !s.security_state.seccomp_enabled,
    {
        let now = system_now();
        EnvironmentState {
            id,
            name,
            path,
            python_version,
            created_at: now.clone(),
            modified_at: now,
            env_vars: StrMap::new(),
            package_state: PackageState::default(),
            container_state: ContainerState::default(),
            security_state: SecurityState::default(),
        }
    }

    /// Marks the state modified now: the modification time becomes a
    /// reading of the system clock, of which nothing is known; every other
    /// field stays.
    pub fn touch(&mut self)
        ensures
            final(self).env_vars@ == old(self).env_vars@,
            final(self).created_at == old(self).created_at,
            final(self).id == old(self).id && final(self).name == old(self).name,
            final(self).path == old(self).path && final(self).python_version == old(self).python_version,
            final(self).package_state == old(self).package_state,
            final(self).container_state == old(self).container_state,
            final(self).security_state == old(self).security_state,
    {
        self.modified_at = system_now();
    }

    /// Sets a variable and marks the state modified.
    pub fn add_env_var(&mut self, key: String, value: String)
        ensures
            final(self).env_vars@ == old(self).env_vars@.insert(key@, value),
            final(self).created_at == old(self).created_at,
    {
        let _ = self.env_vars.insert(key, value);
        self.touch();
    }

    /// Removes a variable, returning its value; the state counts as
    /// modified only when there was one.
    pub fn remove_env_var(&mut self, key: &str) -> (r: Option<String>)
        ensures
            final(self).env_vars@ == old(self).env_vars@.remove(key@),
            r matches Some(v) ==> old(self).env_vars@.contains_key(key@) && v == old(self).env_vars@[key@],
            r is None ==> !old(self).env_vars@.contains_key(key@) && final(self).modified_at == old(self).modified_at,
            final(self).created_at == old(self).created_at,
    {
        let value = self.env_vars.remove(key);
        if value.is_some() {
            self.touch();
        }
        value
    }

    /// The value of a variable.
    pub fn get_env_var(&self, key: &str) -> (r: Option<&String>)
        ensures
            r matches Some(v) ==> self.env_vars@.contains_key(key@) && *v == self.env_vars@[key@],
            r is None ==> !self.env_vars@.contains_key(key@),
    {
        self.env_vars.get(key)
    }
}

} // verus!
