//! Verified core of the Blast Python environment manager: error values,
//! cache bookkeeping, shell integration text, isolation policies,
//! resource limits, import analysis and scheduling rules.

pub mod error;
pub mod text;
pub mod time;
pub mod paths;
pub mod shell;
pub mod cache;
pub mod strmap;
pub mod isolation;
pub mod resources;
pub mod security;
pub mod state;
pub mod hot_reload;
pub mod config;
pub mod package;
pub mod diagnostics;
pub mod logging;
pub mod commands;
pub mod output;
pub mod cli;
pub mod python_env;
pub mod package_state;
pub mod package_layer;
pub mod scheduler;
pub mod debug;
pub mod graph;
