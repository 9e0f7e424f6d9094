//! Shell integration: activation scripts, shell detection rules, the
//! activator's state and the rc-file setup.

pub mod scripts;
pub mod shell;
pub mod setup;
pub mod venv;
