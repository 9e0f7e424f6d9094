//! Project configuration: the project's name and version, its Python
//! version, where its environment lives, and its dependencies.

use vstd::prelude::*;
use crate::error::{BlastError, BlastResult};
use crate::paths::{join, join_path};
use crate::text::push_text;
use vstd::string::StringExecFns;

verus! {

/// Project configuration; the Python version is held as its text.
pub struct BlastConfig {
    pub name: String,
    pub version: String,
    pub python_version: String,
    pub project_root: String,
    pub env_dir: String,
    pub dependencies: DependenciesConfig,
    pub dev_dependencies: Option<DependenciesConfig>,
}

/// Dependencies of a project
pub struct DependenciesConfig {
    pub packages: Vec<DependencySpec>,
    pub package_index: Option<Vec<String>>,
    pub allow_prereleases: bool,
}

impl Default for DependenciesConfig {
    fn default() -> (d: Self)
        ensures
            d.packages@.len() == 0,
            d.package_index is None,
            !d.allow_prereleases,
    {
        DependenciesConfig { packages: Vec::new(), package_index: None, allow_prereleases: false }
    }
}

/// A dependency
#[derive(Debug, Clone)]
pub struct DependencySpec {
    pub name: String,
    pub version: String,
    pub extras: Option<Vec<String>>,
    pub index: Option<String>,
}

/// The error of `validate`, if any: a missing environment directory, then
/// an absolute one.
pub open spec fn config_error(env_dir: Seq<char>, env_dir_exists: bool) -> Option<Seq<char>> {
    if !env_dir_exists {
        Some("Environment directory does not exist: "@ + env_dir)
    } else if env_dir.len() > 0 && env_dir[0] == '/' {
        Some("Environment directory must be relative to project root"@)
    } else {
        None
    }
}

impl BlastConfig {
    /// A configuration for project `name` at `version` in `project_root`,
    /// with its environment in `.venv` and no dependencies.
    pub fn new(name: &str, version: &str, python_version: &str, project_root: &str) -> (c: Self)
        ensures
            c.name@ == name@,
            c.version@ == version@,
            c.python_version@ == python_version@,
            c.project_root@ == project_root@,
            c.env_dir@ == ".venv"@,
            c.dependencies.packages@.len() == 0,
            c.dependencies.package_index is None,
            !c.dependencies.allow_prereleases,
            c.dev_dependencies is None,
    {
        BlastConfig {
            name: String::from_str(name),
            version: String::from_str(version),
            python_version: String::from_str(python_version),
            project_root: String::from_str(project_root),
            env_dir: String::from_str(".venv"),
            dependencies: DependenciesConfig::default(),
            dev_dependencies: None,
        }
    }

    /// The environment directory under the project root.
    pub fn env_path(&self) -> (p: String)
        ensures
            p@ == join_path(self.project_root@, self.env_dir@),
    {
        join(self.project_root.as_str(), self.env_dir.as_str())
    }

    /// Checks the configuration: the environment directory must exist
    /// (`env_dir_exists` says whether it does) and be relative.
    pub fn validate(&self, env_dir_exists: bool) -> (r: BlastResult<()>)
        ensures
            match config_error(self.env_dir@, env_dir_exists) {
                Some(msg) => r matches Err(e) && e matches BlastError::Config(m) && m@ == msg,
                None => r is Ok,
            },
    {
        if !env_dir_exists {
            let mut m = String::from_str("Environment directory does not exist: ");
            push_text(&mut m, self.env_dir.as_str());
            return Err(BlastError::Config(m));
        }
        let v = crate::text::chars_of(self.env_dir.as_str());
        if v.len() > 0 && v[0] == '/' {
            return Err(BlastError::config("Environment directory must be relative to project root"));
        }
        Ok(())
    }

    /// The project name.
    pub fn name(&self) -> (r: &str)
        ensures
            r@ == self.name@,
    {
        self.name.as_str()
    }

    /// The project version.
    pub fn version(&self) -> (r: &str)
        ensures
            r@ == self.version@,
    {
        self.version.as_str()
    }

    /// The Python version.
    pub fn python_version(&self) -> (r: &str)
        ensures
            r@ == self.python_version@,
    {
        self.python_version.as_str()
    }

    /// The project root.
    pub fn root_dir(&self) -> (r: &str)
        ensures
            r@ == self.project_root@,
    {
        self.project_root.as_str()
    }
}

} // verus!
