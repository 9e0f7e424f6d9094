//! Settings of hot reloading.

use vstd::prelude::*;
use crate::text::{strings_of, texts_of};

verus! {

/// Hot reload configuration
#[derive(Debug, Clone)]
pub struct HotReloadConfig {
    /// Paths to watch
    pub watch_paths: Vec<String>,
    /// Whether to watch Python sources
    pub watch_python: bool,
    /// Whether to watch environment variables
    pub watch_env: bool,
    /// Whether to install missing packages automatically
    pub auto_install: bool,
    /// Number of updates kept in the history
    pub max_history: usize,
}

impl Default for HotReloadConfig {
    fn default() -> (c: Self)
        ensures
            texts_of(c.watch_paths@) == seq!["."@],
            c.watch_python,
            c.watch_env,
            !c.auto_install,
            c.max_history == 100,
    {
        let c = HotReloadConfig {
            watch_paths: strings_of(&["."]),
            watch_python: true,
            watch_env: true,
            auto_install: false,
            max_history: 100,
        };
        assert(texts_of(c.watch_paths@) =~= seq!["."@]);
        c
    }
}

impl HotReloadConfig {
    /// The default settings watching `watch_paths`.
    pub fn new(watch_paths: Vec<String>) -> (c: Self)
        ensures
            c.watch_paths == watch_paths,
            c.watch_python,
            c.watch_env,
            !c.auto_install,
            c.max_history == 100,
    {
        HotReloadConfig { watch_paths, watch_python: true, watch_env: true, auto_install: false, max_history: 100 }
    }

    /// The settings with Python watching set to `enabled`.
    pub fn with_python_watch(self, enabled: bool) -> (c: Self)
        ensures
            c == (HotReloadConfig { watch_python: enabled, ..self }),
    {
        let mut c = self;
        c.watch_python = enabled;
        c
    }

    /// The settings with environment watching set to `enabled`.
    pub fn with_env_watch(self, enabled: bool) -> (c: Self)
        ensures
            c == (HotReloadConfig { watch_env: enabled, ..self }),
    {
        let mut c = self;
        c.watch_env = enabled;
        c
    }

    /// The settings with automatic installation set to `enabled`.
    pub fn with_auto_install(self, enabled: bool) -> (c: Self)
        ensures
            c == (HotReloadConfig { auto_install: enabled, ..self }),
    {
        let mut c = self;
        c.auto_install = enabled;
        c
    }

    /// The settings keeping `size` updates in the history.
    pub fn with_max_history(self, size: usize) -> (c: Self)
        ensures
            c == (HotReloadConfig { max_history: size, ..self }),
    {
        let mut c = self;
        c.max_history = size;
        c
    }
}

} // verus!
