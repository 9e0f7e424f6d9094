//! What the command-line commands decide and print: the shell lines that
//! activate an environment, the listing of environments, the report on the
//! active environment, the choice of a saved image, and the daemon's
//! process id.

use vstd::prelude::*;
use crate::error::{BlastError, BlastResult};
use crate::paths::{file_name, file_name_of, path_components, same_path};
use crate::text::{chars_of, has_infix, parse_bounded_range, push_text, same_text, trim, trim_text};
use vstd::string::StringExecFns;

verus! {

/// `prefix` followed by `value`.
fn line(prefix: &str, value: &str) -> (r: String)
    ensures
        r@ == prefix@ + value@,
{
    let mut r = String::from_str(prefix);
    push_text(&mut r, value);
    r
}

/// The guard of `blast start`: starting is refused while the shell is in a
/// blast environment already (`active` holds its name, from
/// `BLAST_ENV_NAME`), with an environment error that names it.
pub fn start_guard(active: Option<String>) -> (r: BlastResult<()>)
    ensures
        r is Ok <==> active is None,
        active matches Some(name) ==> (r matches Err(e) && e matches BlastError::Environment(m) && m@
            == "Already in blast environment: "@ + name@ + ". Run 'blast kill' first to deactivate"@),
{
    match active {
        None => Ok(()),
        Some(name) => Err(BlastError::Environment(
            wrapped("Already in blast environment: ", &name, ". Run 'blast kill' first to deactivate"),
        )),
    }
}

/// `prefix`, `value`, then `suffix`.
fn wrapped(prefix: &str, value: &str, suffix: &str) -> (r: String)
    ensures
        r@ == prefix@ + value@ + suffix@,
{
    let mut r = String::from_str(prefix);
    push_text(&mut r, value);
    push_text(&mut r, suffix);
    r
}

/// The lines a shell evaluates to enter environment `name` at `path` with
/// Python `python_version`.
pub open spec fn start_lines(name: Seq<char>, path: Seq<char>, python_version: Seq<char>) -> Seq<Seq<char>> {
    seq![
        "export BLAST_ENV_NAME=\""@ + name + "\""@,
        "export BLAST_ENV_PATH=\""@ + path + "\""@,
        "export BLAST_PYTHON_VERSION=\""@ + python_version + "\""@,
        "export PS1=\"(blast) $PS1\""@,
        "export PATH=\""@ + path + "/bin:$PATH\""@,
        "hash -r 2>/dev/null || true"@,
    ]
}

/// The lines that activate environment `name` at `path` (see `start_lines`).
pub fn start_exports(name: &str, path: &str, python_version: &str) -> (r: Vec<String>)
    ensures
        r@.map_values(|s: String| s@) == start_lines(name@, path@, python_version@),
{
    let mut r: Vec<String> = Vec::new();
    r.push(wrapped("export BLAST_ENV_NAME=\"", name, "\""));
    r.push(wrapped("export BLAST_ENV_PATH=\"", path, "\""));
    r.push(wrapped("export BLAST_PYTHON_VERSION=\"", python_version, "\""));
    r.push(String::from_str("export PS1=\"(blast) $PS1\""));
    r.push(wrapped("export PATH=\"", path, "/bin:$PATH\""));
    r.push(String::from_str("hash -r 2>/dev/null || true"));
    assert(r@.map_values(|s: String| s@) =~= start_lines(name@, path@, python_version@));
    r
}

/// The name of a new environment: the one given, or else the last name in
/// its path (empty when the path ends in no name).
pub open spec fn env_name_spec(name: Option<Seq<char>>, path: Seq<char>) -> Seq<char> {
    match name {
        Some(n) => n,
        None => match file_name_of(path) {
            Some(f) => f,
            None => Seq::empty(),
        },
    }
}

/// The name of a new environment (see `env_name_spec`).
pub fn env_name_for(name: Option<String>, path: &str) -> (r: String)
    ensures
        r@ == env_name_spec(
            match name {
                Some(n) => Some(n@),
                None => None,
            },
            path@,
        ),
{
    match name {
        Some(n) => n,
        None => match file_name(path) {
            Some(f) => f,
            None => String::new(),
        },
    }
}

/// The listing line of environment `name`: marked with `*` when it is the
/// active one.
pub open spec fn list_line_spec(name: Seq<char>, active: Option<Seq<char>>) -> Seq<char> {
    if active == Some(name) {
        "* "@ + name
    } else {
        "  "@ + name
    }
}

/// The listing line of environment `name` (see `list_line_spec`).
pub fn list_line(name: &str, active: Option<&str>) -> (r: String)
    ensures
        r@ == list_line_spec(
            name@,
            match active {
                Some(a) => Some(a@),
                None => None,
            },
        ),
{
    let is_active = match active {
        Some(a) => same_text(a, name),
        None => false,
    };
    if is_active {
        line("* ", name)
    } else {
        line("  ", name)
    }
}

/// The daemon's lines of a report: its environment's name and path, each
/// when known.
pub open spec fn daemon_lines(name: Option<Seq<char>>, path: Option<Seq<char>>) -> Seq<Seq<char>> {
    let a = match name {
        Some(n) => seq!["  Name: "@ + n],
        None => Seq::empty(),
    };
    match path {
        Some(p) => a.push("  Path: "@ + p),
        None => a,
    }
}

/// The report on the active environment, from the shell's variables (name,
/// path, Python version) and the daemon's record (name, path): in step when
/// both are set with the same name and path, a warning listing both when
/// they differ or only one side is set, and a notice when neither is.
pub open spec fn check_report(
    name: Option<Seq<char>>,
    path: Option<Seq<char>>,
    python: Option<Seq<char>>,
    daemon_name: Option<Seq<char>>,
    daemon_path: Option<Seq<char>>,
) -> Seq<Seq<char>> {
    let shell = name is Some && path is Some && python is Some;
    let daemon = daemon_name is Some && daemon_path is Some;
    if shell && daemon {
        if name == daemon_name && path_components(path->0) == path_components(daemon_path->0) {
            seq![
                "Active blast environment:"@,
                "  Name: "@ + name->0,
                "  Path: "@ + path->0,
                "  Python version: "@ + python->0,
            ]
        } else {
            seq![
                "Warning: Shell environment does not match daemon state"@,
                "Shell environment:"@,
                "  Name: "@ + name->0,
                "  Path: "@ + path->0,
                "Daemon state:"@,
            ] + daemon_lines(daemon_name, daemon_path)
        }
    } else if shell {
        seq![
            "Warning: Shell environment is active but daemon shows no active environment"@,
            "Shell environment:"@,
            "  Name: "@ + name->0,
            "  Path: "@ + path->0,
        ]
    } else if daemon {
        seq!["Warning: Daemon shows active environment but shell environment is not set"@, "Daemon state:"@]
            + daemon_lines(daemon_name, daemon_path)
    } else {
        seq!["No active blast environment"@]
    }
}

/// The texts of an optional string.
pub open spec fn opt_str(o: Option<&str>) -> Option<Seq<char>> {
    match o {
        Some(s) => Some(s@),
        None => None,
    }
}

/// Appends the daemon's lines.
fn push_daemon_lines(r: &mut Vec<String>, name: Option<&str>, path: Option<&str>)
    ensures
        final(r)@.map_values(|s: String| s@) == old(r)@.map_values(|s: String| s@) + daemon_lines(
            opt_str(name),
            opt_str(path),
        ),
{
    match name {
        Some(n) => r.push(line("  Name: ", n)),
        None => {},
    }
    match path {
        Some(p) => r.push(line("  Path: ", p)),
        None => {},
    }
    assert(r@.map_values(|s: String| s@) =~= old(r)@.map_values(|s: String| s@) + daemon_lines(
        opt_str(name),
        opt_str(path),
    ));
}

/// The report on the active environment (see `check_report`).
pub fn check_lines(
    name: Option<&str>,
    path: Option<&str>,
    python: Option<&str>,
    daemon_name: Option<&str>,
    daemon_path: Option<&str>,
) -> (r: Vec<String>)
    ensures
        r@.map_values(|s: String| s@) == check_report(
            opt_str(name),
            opt_str(path),
            opt_str(python),
            opt_str(daemon_name),
            opt_str(daemon_path),
        ),
{
    let mut r: Vec<String> = Vec::new();
    match (name, path, python) {
        (Some(n), Some(p), Some(v)) => {
            match (daemon_name, daemon_path) {
                (Some(dn), Some(dp)) => {
                    if same_text(n, dn) && same_path(p, dp) {
                        r.push(String::from_str("Active blast environment:"));
                        r.push(line("  Name: ", n));
                        r.push(line("  Path: ", p));
                        r.push(line("  Python version: ", v));
                    } else {
                        r.push(String::from_str("Warning: Shell environment does not match daemon state"));
                        r.push(String::from_str("Shell environment:"));
                        r.push(line("  Name: ", n));
                        r.push(line("  Path: ", p));
                        r.push(String::from_str("Daemon state:"));
                        push_daemon_lines(&mut r, daemon_name, daemon_path);
                    }
                },
                _ => {
                    r.push(
                        String::from_str("Warning: Shell environment is active but daemon shows no active environment"),
                    );
                    r.push(String::from_str("Shell environment:"));
                    r.push(line("  Name: ", n));
                    r.push(line("  Path: ", p));
                },
            }
        },
        _ => {
            match (daemon_name, daemon_path) {
                (Some(_), Some(_)) => {
                    r.push(
                        String::from_str("Warning: Daemon shows active environment but shell environment is not set"),
                    );
                    r.push(String::from_str("Daemon state:"));
                    push_daemon_lines(&mut r, daemon_name, daemon_path);
                },
                _ => {
                    r.push(String::from_str("No active blast environment"));
                },
            }
        },
    }
    assert(r@.map_values(|s: String| s@) =~= check_report(
        opt_str(name),
        opt_str(path),
        opt_str(python),
        opt_str(daemon_name),
        opt_str(daemon_path),
    ));
    r
}

/// What the daemon's process-id file holds: its trimmed text read as a `u32`.
pub open spec fn pid_of(content: Seq<char>) -> Option<u32> {
    crate::text::parse_u32_spec(trim(content))
}

/// The daemon's process id from the text of its process-id file.
pub fn parse_pid(content: &str) -> (r: Option<u32>)
    ensures
        r == pid_of(content@),
{
    let t = trim_text(content);
    crate::text::parse_u32(t.as_str())
}

/// The position of the first saved image called `name`.
pub open spec fn image_named(names: Seq<Seq<char>>, name: Seq<char>) -> Option<int> {
    if exists|i: int| 0 <= i < names.len() && names[i] == name {
        Some(choose|i: int| 0 <= i < names.len() && names[i] == name && forall|j: int| 0 <= j < i ==> names[j] != name)
    } else {
        None
    }
}

/// The position of the first saved image called `name` (see `image_named`).
pub fn find_image(names: &Vec<String>, name: &str) -> (r: Option<usize>)
    ensures
        match image_named(names@.map_values(|s: String| s@), name@) {
            Some(i) => r == Some(i as usize),
            None => r is None,
        },
{
    let ghost ns = names@.map_values(|s: String| s@);
    let mut i: usize = 0;
    while i < names.len()
        invariant
            i <= names@.len(),
            ns == names@.map_values(|s: String| s@),
            forall|j: int| 0 <= j < i ==> ns[j] != name@,
        decreases names@.len() - i,
    {
        assert(ns[i as int] == names@[i as int]@);
        if same_text(names[i].as_str(), name) {
            proof {
                let c = choose|c: int| 0 <= c < ns.len() && ns[c] == name@ && forall|j: int| 0 <= j < c ==> ns[j] != name@;
                assert(ns[i as int] == name@);
                if c < i {
                    assert(ns[c] != name@);
                }
                if c > i {
                    assert(ns[i as int] != name@);
                }
            }
            return Some(i);
        }
        i += 1;
    }
    assert forall|j: int| 0 <= j < ns.len() implies ns[j] != name@ by {}
    None
}

/// The image picked by the number typed at the prompt: the trimmed input
/// read as a number from 1 to `count`, counted from one.
pub open spec fn typed_choice(input: Seq<char>, count: nat) -> Option<nat> {
    match crate::text::parse_unsigned(trim(input), usize::MAX as nat) {
        Some(n) => if 1 <= n <= count {
            Some((n - 1) as nat)
        } else {
            None
        },
        None => None,
    }
}

/// The position of the image picked by the typed input (see `typed_choice`).
pub fn parse_choice(input: &str, count: usize) -> (r: Option<usize>)
    ensures
        match typed_choice(input@, count as nat) {
            Some(i) => r == Some(i as usize),
            None => r is None,
        },
{
    let t = trim_text(input);
    let v = chars_of(t.as_str());
    assert(v@.subrange(0, v@.len() as int) =~= v@);
    match parse_bounded_range(&v, 0, v.len(), usize::MAX as u64) {
        Some(n) => {
            if 1 <= n && n <= count as u64 {
                Some((n - 1) as usize)
            } else {
                None
            }
        },
        None => None,
    }
}

/// The prompt variable set for a shell, with its value: `PS1` for bash,
/// `PROMPT` for zsh.
pub open spec fn prompt_setting(shell: Seq<char>) -> Option<(Seq<char>, Seq<char>)> {
    if has_infix(shell, "bash"@) {
        Some(("PS1"@, "(blast) $PS1"@))
    } else if has_infix(shell, "zsh"@) {
        Some(("PROMPT"@, "(blast) $PROMPT"@))
    } else {
        None
    }
}

/// The prompt variable and value for `shell` (see `prompt_setting`).
pub fn prompt_variable(shell: &str) -> (r: Option<(&'static str, &'static str)>)
    ensures
        match prompt_setting(shell@) {
            Some(p) => r matches Some(q) && q.0@ == p.0 && q.1@ == p.1,
            None => r is None,
        },
{
    let v = chars_of(shell);
    if crate::text::contains_text(&v, "bash") {
        Some(("PS1", "(blast) $PS1"))
    } else if crate::text::contains_text(&v, "zsh") {
        Some(("PROMPT", "(blast) $PROMPT"))
    } else {
        None
    }
}

/// The shell text that leaves an environment: the saved variables are put
/// back, the environment's variables and functions are removed, and the
/// command cache is reset.
pub const DEACTIVATION_SCRIPT: &'static str = "
# Reset old environment variables
if [ -n \"$_OLD_BLAST_PATH\" ] ; then
    PATH=\"$_OLD_BLAST_PATH\"
    export PATH
    unset _OLD_BLAST_PATH
fi

if [ -n \"$_OLD_BLAST_PYTHONPATH\" ] ; then
    PYTHONPATH=\"$_OLD_BLAST_PYTHONPATH\"
    export PYTHONPATH
    unset _OLD_BLAST_PYTHONPATH
fi

if [ -n \"$_OLD_BLAST_PS1\" ] ; then
    PS1=\"$_OLD_BLAST_PS1\"
    export PS1
    unset _OLD_BLAST_PS1
fi

# Unset blast environment variables
unset BLAST_ENV_NAME
unset BLAST_ENV_PATH
unset BLAST_SOCKET_PATH

# Clean up functions
unset -f deactivate
unset -f pip

# Reset hash
hash -r 2>/dev/null";

} // verus!
