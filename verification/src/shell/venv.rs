//! Layout of a Blast environment directory: the directories it holds, its
//! configuration file and its activation scripts.

use vstd::prelude::*;
use crate::paths::{join, join_path};
use crate::text::push_text;
use vstd::string::StringExecFns;

verus! {

/// Opening of the bash activation script, up to the home path.
pub const BASH_ACTIVATION_HEAD: &'static str = r#"#!/bin/bash
# Blast environment activation for bash/zsh

# Load blast configuration
BLAST_HOME=""#;

/// Bash activation text between the home path and the environment name.
pub const BASH_ACTIVATION_AFTER_HOME: &'static str = r#""
BLAST_ENV_NAME=""#;

/// Bash activation text between the environment name and the Python version.
pub const BASH_ACTIVATION_AFTER_NAME: &'static str = r#""
BLAST_PYTHON_VERSION=""#;

/// Rest of the bash activation script after the Python version.
pub const BASH_ACTIVATION_TAIL: &'static str = r#""
BLAST_BIN="$BLAST_HOME/bin"
BLAST_LIB="$BLAST_HOME/lib"
BLAST_INCLUDE="$BLAST_HOME/include"
BLAST_CACHE="$BLAST_HOME/cache"
BLAST_LOGS="$BLAST_HOME/logs"
BLAST_STATE="$BLAST_HOME/state"
BLAST_HOOKS="$BLAST_HOME/hooks"

deactivate () {
    # Force clean environment through exec
    if [ -f "/tmp/blast/daemon.pid" ]; then
        kill $(cat "/tmp/blast/daemon.pid") 2>/dev/null || true
        rm -f "/tmp/blast/daemon.pid"
    fi
    exec env -i HOME=$HOME PATH=/usr/bin:/bin:/usr/sbin:/sbin:/usr/local/bin:$HOME/.cargo/bin TERM=$TERM zsh -l
}

# Execute any pre-activation hooks
if [ -d "$BLAST_HOOKS/pre-activate" ]; then
    for hook in "$BLAST_HOOKS/pre-activate"/*; do
        if [ -x "$hook" ]; then
            source "$hook"
        fi
    done
fi

# Save old environment variables
_OLD_VIRTUAL_PATH="$PATH"
_OLD_VIRTUAL_PS1="${PS1:-}"
if [ -n "$PYTHONHOME" ] ; then
    _OLD_VIRTUAL_PYTHONHOME="$PYTHONHOME"
    unset PYTHONHOME
fi

# Update environment variables
export BLAST_HOME
export BLAST_ENV_NAME
export BLAST_PYTHON_VERSION
export BLAST_BIN
export BLAST_LIB
export BLAST_INCLUDE
export BLAST_CACHE
export BLAST_LOGS
export BLAST_STATE
export BLAST_HOOKS

# Update PATH
if [[ ":$PATH:" != *":$BLAST_BIN:"* ]]; then
    export PATH="$BLAST_BIN:$PATH"
fi

# Update prompt
PS1="(blast:$BLAST_ENV_NAME) $PS1"
export PS1

# Execute any post-activation hooks
if [ -d "$BLAST_HOOKS/post-activate" ]; then
    for hook in "$BLAST_HOOKS/post-activate"/*; do
        if [ -x "$hook" ]; then
            source "$hook"
        fi
    done
fi

# This should detect bash and zsh, which have a hash command that must
# be called to get it to forget past commands.  Without forgetting
# past commands the $PATH changes we made may not be respected
if [ -n "$BASH" -o -n "$ZSH_VERSION" ] ; then
    hash -r 2>/dev/null
fi
"#;

/// Directories created inside a new environment.
pub open spec fn environment_dirs() -> Seq<Seq<char>> {
    seq!["bin"@, "lib"@, "include"@, "state"@, "logs"@, "cache"@, "hooks"@]
}

/// Hook directories created inside a new environment.
pub open spec fn hook_dirs() -> Seq<Seq<char>> {
    seq!["hooks/pre-activate"@, "hooks/post-activate"@]
}

/// The bash activation script of an environment.
pub open spec fn bash_activation(root: Seq<char>, name: Seq<char>, version: Seq<char>) -> Seq<char> {
    BASH_ACTIVATION_HEAD@ + root + BASH_ACTIVATION_AFTER_HOME@ + name + BASH_ACTIVATION_AFTER_NAME@
        + version + BASH_ACTIVATION_TAIL@
}

/// The environment's configuration file.
pub open spec fn config_content(root: Seq<char>, version: Seq<char>) -> Seq<char> {
    "home = "@ + root + "\nimplementation = CPython\nversion = "@ + version
        + "\nblast_version = 0.1.0\n"@
}

/// A Blast environment rooted at a directory.
pub struct Environment {
    root: String,
    name: String,
    python_version: String,
}

impl Environment {
    pub closed spec fn root_spec(self) -> Seq<char> {
        self.root@
    }

    pub closed spec fn name_spec(self) -> Seq<char> {
        self.name@
    }

    pub closed spec fn python_version_spec(self) -> Seq<char> {
        self.python_version@
    }

    pub fn new(root: String, name: String, python_version: String) -> (e: Self)
        ensures
            e.root_spec() == root@,
            e.name_spec() == name@,
            e.python_version_spec() == python_version@,
    {
        Environment { root, name, python_version }
    }

    /// The directories to create, each under the root.
    pub fn directories(&self) -> (d: Vec<String>)
        ensures
            d@.len() == environment_dirs().len(),
            forall|i: int|
                0 <= i < d@.len() ==> (#[trigger] d@[i])@ == join_path(
                    self.root_spec(),
                    environment_dirs()[i],
                ),
    {
        let names = ["bin", "lib", "include", "state", "logs", "cache", "hooks"];
        let mut d: Vec<String> = Vec::new();
        let mut i: usize = 0;
        while i < 7
            invariant
                i <= 7,
                names@ == seq!["bin", "lib", "include", "state", "logs", "cache", "hooks"],
                d@.len() == i,
                forall|j: int|
                    0 <= j < i ==> (#[trigger] d@[j])@ == join_path(
                        self.root@,
                        environment_dirs()[j],
                    ),
            decreases 7 - i,
        {
            d.push(join(self.root.as_str(), names[i]));
            i += 1;
        }
        d
    }

    /// The hook directories to create, each under the root.
    pub fn hook_directories(&self) -> (d: Vec<String>)
        ensures
            d@.len() == hook_dirs().len(),
            forall|i: int|
                0 <= i < d@.len() ==> (#[trigger] d@[i])@ == join_path(self.root_spec(), hook_dirs()[i]),
    {
        let mut d: Vec<String> = Vec::new();
        d.push(join(self.root.as_str(), "hooks/pre-activate"));
        d.push(join(self.root.as_str(), "hooks/post-activate"));
        d
    }

    /// The activation scripts to write into `bin`, as file name and content.
    pub fn activation_scripts(&self) -> (s: Vec<(String, String)>)
        ensures
            s@.len() == 3,
            s@[0].0@ == "activate"@,
            s@[0].1@ == bash_activation(self.root_spec(), self.name_spec(), self.python_version_spec()),
            s@[1].0@ == "activate.fish"@,
            s@[1].1@ == Seq::<char>::empty(),
            s@[2].0@ == "activate.ps1"@,
            s@[2].1@ == Seq::<char>::empty(),
    {
        let mut s: Vec<(String, String)> = Vec::new();
        s.push((String::from_str("activate"), self.generate_bash_activation()));
        s.push((String::from_str("activate.fish"), String::new()));
        s.push((String::from_str("activate.ps1"), String::new()));
        s
    }

    /// The content of the environment's `blast.cfg`.
    pub fn config_file_content(&self) -> (c: String)
        ensures
            c@ == config_content(self.root_spec(), self.python_version_spec()),
    {
        let mut c = String::from_str("home = ");
        push_text(&mut c, self.root.as_str());
        push_text(&mut c, "\nimplementation = CPython\nversion = ");
        push_text(&mut c, self.python_version.as_str());
        push_text(&mut c, "\nblast_version = 0.1.0\n");
        c
    }

    /// The interpreter that the environment's `bin/python` links to.
    pub fn python_link_target(&self) -> (t: String)
        ensures
            t@ == "/usr/local/bin/python"@ + self.python_version_spec(),
    {
        let mut t = String::from_str("/usr/local/bin/python");
        push_text(&mut t, self.python_version.as_str());
        t
    }

    /// The bash activation script.
    pub fn generate_bash_activation(&self) -> (s: String)
        ensures
            s@ == bash_activation(self.root_spec(), self.name_spec(), self.python_version_spec()),
    {
        let mut s = String::from_str(BASH_ACTIVATION_HEAD);
        push_text(&mut s, self.root.as_str());
        push_text(&mut s, BASH_ACTIVATION_AFTER_HOME);
        push_text(&mut s, self.name.as_str());
        push_text(&mut s, BASH_ACTIVATION_AFTER_NAME);
        push_text(&mut s, self.python_version.as_str());
        push_text(&mut s, BASH_ACTIVATION_TAIL);
        assert(s@ =~= bash_activation(self.root@, self.name@, self.python_version@));
        s
    }
}

} // verus!
