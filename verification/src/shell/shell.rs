//! Shell detection rules, the saved shell state, the environment activator
//! and the shell functions that Blast installs.

use vstd::prelude::*;
use crate::paths::{join, join_path};
use crate::shell::scripts::{
    ActivationScripts, fill_template, BASH_ZSH_HEAD, BASH_ZSH_MID, BASH_ZSH_TAIL, FISH_HEAD,
    FISH_MID, FISH_TAIL, POWERSHELL_HEAD, POWERSHELL_MID, POWERSHELL_TAIL,
};
use crate::text::{
    chars_of, find_from, find_text, has_infix, lemma_split_nonempty, push_text, range_is,
    split_bounds, split_on, string_of_range, trim, trim_bounds, trim_end, trim_start, char_is_whitespace,
};
use vstd::string::StringExecFns;

verus! {

/// Shell function that wraps `blast` for bash and zsh.
pub const BASH_ZSH_SHELL_FUNCTION: &'static str = r#"# Blast environment manager integration
blast() {
    if [ "$1" = "start" ]; then
        # Create a unique temporary file based on PID
        local temp_file="/tmp/blast_${$}_$(date +%s)"
        
        # Run blast and capture output
        if command blast "$@" > "$temp_file" 2>&1; then
            # Source the file if it contains activation script
            if grep -q "BLAST_ENV_NAME" "$temp_file" && grep -q "deactivate" "$temp_file"; then
                . "$temp_file"
                rm -f "$temp_file"
                return 0
            else
                cat "$temp_file"
                rm -f "$temp_file"
                return 1
            fi
        else
            cat "$temp_file"
            rm -f "$temp_file"
            return 1
        fi
    else
        command blast "$@"
    fi
}"#;

/// Shell function that wraps `blast` for fish.
pub const FISH_SHELL_FUNCTION: &'static str = r#"function blast
    # Prevent recursion
    if set -q BLAST_RECURSION_CHECK
        echo "Error: Detected recursive blast activation" >&2
        return 1
    end
    set -x BLAST_RECURSION_CHECK 1

    # Safety mechanism: limit subshell depth
    set -q SHLVL; or set SHLVL 1
    if test $SHLVL -gt 20
        echo "Error: Shell nesting level too deep ($SHLVL)" >&2
        set -e BLAST_RECURSION_CHECK
        return 1
    end

    if test "$argv[1]" = "start"
        # Get blast binary path
        set -l blast_bin (command -v blast)
        if test $status -ne 0
            echo "Error: blast binary not found in PATH" >&2
            set -e BLAST_RECURSION_CHECK
            return 1
        end

        # Create temp files with cleanup
        set -l temp_file (mktemp)
        set -l log_file (mktemp)
        
        function cleanup --on-event fish_exit
            rm -f "$temp_file" "$log_file"
            set -e BLAST_RECURSION_CHECK
        end

        # Safety mechanism: timeout
        if command -v timeout >/dev/null 2>&1
            if not timeout 30s $blast_bin $argv > $temp_file 2> $log_file
                if test $status -eq 124
                    echo "Error: Command timed out after 30 seconds" >&2
                end
                cat $log_file >&2
                cleanup
                return 1
            end
        else
            if not $blast_bin $argv > $temp_file 2> $log_file
                cat $log_file >&2
                cleanup
                return 1
            end
        end

        # Verify activation script
        if grep -q "BLAST_ENV_NAME" $temp_file; and grep -q "deactivate" $temp_file
            # Safety mechanism: check script size
            set -l script_size (wc -l < $temp_file)
            if test $script_size -gt 1000
                echo "Error: Activation script too large ($script_size lines)" >&2
                cleanup
                return 1
            end

            source $temp_file
            set -l exit_code $status
            
            if test -s "$log_file"
                cat "$log_file" >&2
            end
            
            cleanup
            return $exit_code
        else
            cat "$log_file" >&2
            cat "$temp_file" >&2
            cleanup
            return 1
        end
    else
        command blast $argv
        set -l exit_code $status
        set -e BLAST_RECURSION_CHECK
        return $exit_code
    end
end"#;

/// Shell function that wraps `blast` for PowerShell.
pub const POWERSHELL_SHELL_FUNCTION: &'static str = r#"function blast {
    param([Parameter(ValueFromRemainingArguments=$true)]$args)
    
    # Prevent recursion
    if ($env:BLAST_RECURSION_CHECK) {
        Write-Error "Error: Detected recursive blast activation"
        return 1
    }
    $env:BLAST_RECURSION_CHECK = 1

    # Safety mechanism: check call stack depth
    if ((Get-PSCallStack).Count -gt 20) {
        Write-Error "Error: PowerShell call stack too deep"
        $env:BLAST_RECURSION_CHECK = $null
        return 1
    }

    try {
        if ($args[0] -eq "start") {
            # Get blast binary path
            $blast_bin = Get-Command blast -ErrorAction SilentlyContinue
            if (-not $blast_bin) {
                Write-Error "Error: blast binary not found in PATH"
                return 1
            }

            # Create temp files
            $temp_file = [System.IO.Path]::GetTempFileName()
            $log_file = [System.IO.Path]::GetTempFileName()

            try {
                # Safety mechanism: timeout
                $timeoutSeconds = 30
                $processStartTime = Get-Date
                
                $process = Start-Process -FilePath $blast_bin.Path -ArgumentList $args `
                    -RedirectStandardOutput $temp_file -RedirectStandardError $log_file `
                    -NoNewWindow -PassThru

                # Wait with timeout
                if (-not $process.WaitForExit($timeoutSeconds * 1000)) {
                    $process.Kill()
                    Write-Error "Error: Command timed out after $timeoutSeconds seconds"
                    return 1
                }

                if ($process.ExitCode -eq 0) {
                    # Verify activation script
                    $content = Get-Content $temp_file -Raw
                    if ($content -match "BLAST_ENV_NAME" -and $content -match "deactivate") {
                        # Safety mechanism: check script size
                        $scriptLines = @(Get-Content $temp_file).Count
                        if ($scriptLines -gt 1000) {
                            Write-Error "Error: Activation script too large ($scriptLines lines)"
                            return 1
                        }

                        # Source the script
                        . $temp_file
                        
                        # Show any warnings/info
                        if (Test-Path $log_file) {
                            Get-Content $log_file | Write-Warning
                        }
                        
                        return $LASTEXITCODE
                    } else {
                        Get-Content $log_file | Write-Error
                        Get-Content $temp_file | Write-Error
                        return 1
                    }
                } else {
                    Get-Content $log_file | Write-Error
                    return $process.ExitCode
                }
            }
            finally {
                if (Test-Path $temp_file) { Remove-Item -Force $temp_file }
                if (Test-Path $log_file) { Remove-Item -Force $log_file }
                $env:BLAST_RECURSION_CHECK = $null
            }
        } else {
            & $blast_bin.Path $args
            return $LASTEXITCODE
        }
    }
    catch {
        Write-Error $_.Exception.Message
        return 1
    }
    finally {
        $env:BLAST_RECURSION_CHECK = $null
    }
}"#;

/// Shells whose integration Blast knows.
#[derive(Debug, Clone, Copy, PartialEq, Eq, Structural)]
pub enum Shell {
    Bash,
    Zsh,
    Fish,
    PowerShell,
    Unknown,
}

/// The shell named by an executable's file name.
pub open spec fn shell_named(name: Seq<char>) -> Option<Shell> {
    if name == "bash"@ {
        Some(Shell::Bash)
    } else if name == "zsh"@ {
        Some(Shell::Zsh)
    } else if name == "fish"@ {
        Some(Shell::Fish)
    } else if name == "pwsh"@ || name == "powershell"@ {
        Some(Shell::PowerShell)
    } else {
        None
    }
}

/// The shell that a parent process's command line names: its first
/// NUL-separated piece is searched for a shell's name.
pub open spec fn shell_in_cmdline(cmdline: Seq<char>) -> Option<Shell> {
    let cmd = split_on(cmdline, '\0')[0];
    if has_infix(cmd, "bash"@) {
        Some(Shell::Bash)
    } else if has_infix(cmd, "zsh"@) {
        Some(Shell::Zsh)
    } else if has_infix(cmd, "fish"@) {
        Some(Shell::Fish)
    } else if has_infix(cmd, "pwsh"@) || has_infix(cmd, "powershell"@) {
        Some(Shell::PowerShell)
    } else {
        None
    }
}

/// Detection order: the file name of `$SHELL`, then `$BASH_VERSION`, then
/// `$ZSH_VERSION`, then the parent process's command line, then bash.
pub open spec fn detected_shell(
    shell_var: Option<Seq<char>>,
    bash_version_set: bool,
    zsh_version_set: bool,
    parent_cmdline: Option<Seq<char>>,
) -> Shell {
    if shell_var is Some && shell_named(split_on(shell_var->0, '/').last()) is Some {
        shell_named(split_on(shell_var->0, '/').last())->0
    } else if bash_version_set {
        Shell::Bash
    } else if zsh_version_set {
        Shell::Zsh
    } else if parent_cmdline is Some && shell_in_cmdline(parent_cmdline->0) is Some {
        shell_in_cmdline(parent_cmdline->0)->0
    } else {
        Shell::Bash
    }
}

/// Text of the activation command for an environment at `env_path`.
pub open spec fn activation_command(shell: Shell, env_path: Seq<char>) -> Seq<char> {
    let bin = join_path(env_path, "bin"@);
    match shell {
        Shell::Bash | Shell::Zsh => "source "@ + bin + "/activate"@,
        Shell::Fish => "source "@ + bin + "/activate.fish"@,
        Shell::PowerShell => ". "@ + bin + "/activate.ps1"@,
        Shell::Unknown => UNSUPPORTED_SHELL_MESSAGE@,
    }
}

/// Message printed in place of a script for a shell Blast does not support.
pub const UNSUPPORTED_SHELL_MESSAGE: &'static str = "echo 'Unsupported shell detected. Please use bash, zsh, fish, or powershell.'";

/// Whether `v[a..b]` names a shell executable, and which.
fn shell_named_range(v: &[char], a: usize, b: usize) -> (r: Option<Shell>)
    requires
        a <= b <= v@.len(),
    ensures
        r == shell_named(v@.subrange(a as int, b as int)),
{
    if range_is(v, a, b, "bash") {
        Some(Shell::Bash)
    } else if range_is(v, a, b, "zsh") {
        Some(Shell::Zsh)
    } else if range_is(v, a, b, "fish") {
        Some(Shell::Fish)
    } else if range_is(v, a, b, "pwsh") || range_is(v, a, b, "powershell") {
        Some(Shell::PowerShell)
    } else {
        None
    }
}

/// Whether `v[a..b]` contains the characters of `t`.
fn range_contains(v: &[char], a: usize, b: usize, t: &str) -> (r: bool)
    requires
        a <= b <= v@.len(),
    ensures
        r == has_infix(v@.subrange(a as int, b as int), t@),
{
    let mut w: Vec<char> = Vec::new();
    let mut i = a;
    while i < b
        invariant
            a <= i <= b <= v@.len(),
            w@ == v@.subrange(a as int, i as int),
        decreases b - i,
    {
        w.push(v[i]);
        i += 1;
        assert(w@ =~= v@.subrange(a as int, i as int));
    }
    crate::text::contains_text(&w, t)
}

impl Shell {
    /// The shell chosen from the values that detection reads: `$SHELL`, whether
    /// `$BASH_VERSION` and `$ZSH_VERSION` are set, and the parent process's
    /// command line.
    pub fn detect_from(
        shell_var: Option<&str>,
        bash_version_set: bool,
        zsh_version_set: bool,
        parent_cmdline: Option<&str>,
    ) -> (s: Shell)
        ensures
            s == detected_shell(
                match shell_var {
                    Some(v) => Some(v@),
                    None => None,
                },
                bash_version_set,
                zsh_version_set,
                match parent_cmdline {
                    Some(c) => Some(c@),
                    None => None,
                },
            ),
    {
        if let Some(var) = shell_var {
            let v = chars_of(var);
            let pieces = split_bounds(&v, 0, v.len(), '/');
            proof {
                assert(v@.subrange(0, v@.len() as int) =~= var@);
                lemma_split_nonempty(var@, '/');
            }
            let (a, b) = pieces[pieces.len() - 1];
            if let Some(s) = shell_named_range(&v, a, b) {
                return s;
            }
        }
        if bash_version_set {
            return Shell::Bash;
        }
        if zsh_version_set {
            return Shell::Zsh;
        }
        if let Some(cmdline) = parent_cmdline {
            let v = chars_of(cmdline);
            let pieces = split_bounds(&v, 0, v.len(), '\0');
            proof {
                assert(v@.subrange(0, v@.len() as int) =~= cmdline@);
                lemma_split_nonempty(cmdline@, '\0');
            }
            let (a, b) = pieces[0];
            if range_contains(&v, a, b, "bash") {
                return Shell::Bash;
            } else if range_contains(&v, a, b, "zsh") {
                return Shell::Zsh;
            } else if range_contains(&v, a, b, "fish") {
                return Shell::Fish;
            } else if range_contains(&v, a, b, "pwsh") || range_contains(&v, a, b, "powershell") {
                return Shell::PowerShell;
            }
        }
        Shell::Bash
    }

    pub fn get_activation_command(&self, env_path: &str) -> (s: String)
        ensures
            s@ == activation_command(*self, env_path@),
    {
        let bin_dir = join(env_path, "bin");
        match self {
            Shell::Bash | Shell::Zsh => {
                let mut s = String::from_str("source ");
                push_text(&mut s, bin_dir.as_str());
                push_text(&mut s, "/activate");
                s
            },
            Shell::Fish => {
                let mut s = String::from_str("source ");
                push_text(&mut s, bin_dir.as_str());
                push_text(&mut s, "/activate.fish");
                s
            },
            Shell::PowerShell => {
                let mut s = String::from_str(". ");
                push_text(&mut s, bin_dir.as_str());
                push_text(&mut s, "/activate.ps1");
                s
            },
            Shell::Unknown => String::from_str(UNSUPPORTED_SHELL_MESSAGE),
        }
    }

    pub fn get_deactivation_command(&self) -> (s: &'static str)
        ensures
            s@ == (if *self == Shell::Unknown {
                "echo 'Unsupported shell detected.'"@
            } else {
                "deactivate"@
            }),
    {
        match self {
            Shell::Bash | Shell::Zsh | Shell::Fish => "deactivate",
            Shell::PowerShell => "deactivate",
            Shell::Unknown => "echo 'Unsupported shell detected.'",
        }
    }
}

/// Shell variables saved before activation and the environment that is active.
#[derive(Debug, Clone)]
pub struct ShellState {
    original_path: Option<String>,
    original_pythonpath: Option<String>,
    original_prompt: Option<String>,
    active_env_name: Option<String>,
    active_env_path: Option<String>,
    socket_path: Option<String>,
}

/// Path of the daemon socket for the environment `name`.
pub open spec fn socket_path_for(name: Seq<char>) -> Seq<char> {
    "/tmp/blast_"@ + name + ".sock"@
}

impl ShellState {
    /// A state that remembers the given shell variables and has no active environment.
    pub fn from_parts(
        original_path: Option<String>,
        original_pythonpath: Option<String>,
        original_prompt: Option<String>,
    ) -> (s: Self)
        ensures
            s.original_path() == original_path,
            s.original_pythonpath() == original_pythonpath,
            s.original_prompt() == original_prompt,
            s.active_env_name() is None,
            s.active_env_path() is None,
            s.socket_path() is None,
    {
        ShellState {
            original_path,
            original_pythonpath,
            original_prompt,
            active_env_name: None,
            active_env_path: None,
            socket_path: None,
        }
    }

    pub closed spec fn original_path(self) -> Option<String> {
        self.original_path
    }

    pub closed spec fn original_pythonpath(self) -> Option<String> {
        self.original_pythonpath
    }

    pub closed spec fn original_prompt(self) -> Option<String> {
        self.original_prompt
    }

    pub closed spec fn active_env_name(self) -> Option<String> {
        self.active_env_name
    }

    pub closed spec fn active_env_path(self) -> Option<String> {
        self.active_env_path
    }

    pub closed spec fn socket_path(self) -> Option<String> {
        self.socket_path
    }

    /// Marks `env_name` at `env_path` as the active environment.
    pub fn with_environment(self, env_name: String, env_path: String) -> (s: Self)
        ensures
            s.original_path() == self.original_path(),
            s.original_pythonpath() == self.original_pythonpath(),
            s.original_prompt() == self.original_prompt(),
            s.active_env_name() == Some(env_name),
            s.active_env_path() == Some(env_path),
            s.socket_path() matches Some(p) && p@ == socket_path_for(env_name@),
    {
        let mut socket = String::from_str("/tmp/blast_");
        push_text(&mut socket, env_name.as_str());
        push_text(&mut socket, ".sock");
        ShellState {
            active_env_name: Some(env_name),
            active_env_path: Some(env_path),
            socket_path: Some(socket),
            ..self
        }
    }

    /// The daemon socket path, if an environment is active.
    pub fn socket(&self) -> (r: Option<&str>)
        ensures
            r matches Some(p) ==> self.socket_path() matches Some(q) && p@ == q@,
            r is None <==> self.socket_path() is None,
    {
        match &self.socket_path {
            Some(p) => Some(p.as_str()),
            None => None,
        }
    }
}

/// The script that activates an environment in `shell`.
pub open spec fn activation_script(shell: Shell, env_path: Seq<char>, env_name: Seq<char>) -> Seq<char> {
    match shell {
        Shell::Bash | Shell::Zsh => fill_template(
            BASH_ZSH_HEAD@,
            BASH_ZSH_MID@,
            BASH_ZSH_TAIL@,
            env_path,
            env_name,
        ),
        Shell::Fish => fill_template(FISH_HEAD@, FISH_MID@, FISH_TAIL@, env_path, env_name),
        Shell::PowerShell => fill_template(
            POWERSHELL_HEAD@,
            POWERSHELL_MID@,
            POWERSHELL_TAIL@,
            env_path,
            env_name,
        ),
        Shell::Unknown => UNSUPPORTED_SHELL_MESSAGE@,
    }
}

/// The shell function that wraps `blast` in `shell`.
pub open spec fn shell_function(shell: Shell) -> Seq<char> {
    match shell {
        Shell::Bash | Shell::Zsh => BASH_ZSH_SHELL_FUNCTION@,
        Shell::Fish => FISH_SHELL_FUNCTION@,
        Shell::PowerShell => POWERSHELL_SHELL_FUNCTION@,
        Shell::Unknown => "# Unsupported shell detected"@,
    }
}

/// For bash and zsh, the shell function is its own trimmed text and
/// defines `blast`; it sources what `blast start` printed only where it
/// finds both "BLAST_ENV_NAME" and "deactivate" in it, and the activation
/// script of every environment holds both, so the function sources it.
pub proof fn law_bash_function_sources_activation_script(shell: Shell, env_path: Seq<char>, env_name: Seq<char>)
    requires
        shell is Bash || shell is Zsh,
    ensures
        trim(shell_function(shell)) == shell_function(shell),
        has_infix(shell_function(shell), "blast() {"@),
        has_infix(shell_function(shell), r#"grep -q "BLAST_ENV_NAME" "$temp_file""#@),
        has_infix(shell_function(shell), r#"grep -q "deactivate" "$temp_file""#@),
        has_infix(fill_template(BASH_ZSH_HEAD@, BASH_ZSH_MID@, BASH_ZSH_TAIL@, env_path, env_name), "BLAST_ENV_NAME"@),
        has_infix(fill_template(BASH_ZSH_HEAD@, BASH_ZSH_MID@, BASH_ZSH_TAIL@, env_path, env_name), "deactivate"@),
{
    reveal_strlit(r#"# Blast environment manager integration
blast() {
    if [ "$1" = "start" ]; then
        # Create a unique temporary file based on PID
        local temp_file="/tmp/blast_${$}_$(date +%s)"
        
        # Run blast and capture output
        if command blast "$@" > "$temp_file" 2>&1; then
            # Source the file if it contains activation script
            if grep -q "BLAST_ENV_NAME" "$temp_file" && grep -q "deactivate" "$temp_file"; then
                . "$temp_file"
                rm -f "$temp_file"
                return 0
            else
                cat "$temp_file"
                rm -f "$temp_file"
                return 1
            fi
        else
            cat "$temp_file"
            rm -f "$temp_file"
            return 1
        fi
    else
        command blast "$@"
    fi
}"#);
    reveal_strlit(r#"#!/bin/bash
# Blast environment activation script for bash/zsh

deactivate () {
    # reset old environment variables
    if [ -n "$_OLD_BLAST_PATH" ] ; then
        PATH="$_OLD_BLAST_PATH"
        export PATH
        unset _OLD_BLAST_PATH
    fi

    if [ -n "$_OLD_BLAST_PS1" ] ; then
        PS1="$_OLD_BLAST_PS1"
        export PS1
        unset _OLD_BLAST_PS1
    fi

    if [ -n "$BLAST_ENV" ] ; then
        unset BLAST_ENV
    fi

    if [ -n "$BLAST_ENV_NAME" ] ; then
        unset BLAST_ENV_NAME
    fi

    if [ ! "$1" = "nondestructive" ] ; then
        # Self destruct!
        unset -f deactivate
    fi
}

# unset irrelevant variables
deactivate nondestructive

_OLD_BLAST_PATH="$PATH"
_OLD_BLAST_PS1="${PS1:-}"
BLAST_ENV=""#);
    reveal_strlit("blast() {");
    reveal_strlit(r#"grep -q "BLAST_ENV_NAME" "$temp_file""#);
    reveal_strlit(r#"grep -q "deactivate" "$temp_file""#);
    reveal_strlit("BLAST_ENV_NAME");
    reveal_strlit("deactivate");
    let f = BASH_ZSH_SHELL_FUNCTION@;
    assert(!char_is_whitespace(f[0]) && !char_is_whitespace(f.last()));
    assert(trim_start(f) == f);
    assert(trim_end(f) == f);
    assert(f.subrange(40, 40 + "blast() {"@.len() as int) =~= "blast() {"@);
    assert(f.subrange(372, 372 + r#"grep -q "BLAST_ENV_NAME" "$temp_file""#@.len() as int) =~= r#"grep -q "BLAST_ENV_NAME" "$temp_file""#@);
    assert(f.subrange(413, 413 + r#"grep -q "deactivate" "$temp_file""#@.len() as int) =~= r#"grep -q "deactivate" "$temp_file""#@);
    let s = fill_template(BASH_ZSH_HEAD@, BASH_ZSH_MID@, BASH_ZSH_TAIL@, env_path, env_name);
    assert(s.subrange(453, 453 + "BLAST_ENV_NAME"@.len() as int) =~= "BLAST_ENV_NAME"@);
    assert(s.subrange(64, 64 + "deactivate"@.len() as int) =~= "deactivate"@);
}

/// The rc file, relative to the home directory, that receives the shell
/// function (`None` for a shell without one).
pub open spec fn rc_file_for(shell: Shell, windows: bool) -> Option<Seq<char>> {
    match shell {
        Shell::Bash => Some(".bashrc"@),
        Shell::Zsh => Some(".zshrc"@),
        Shell::Fish => Some(".config/fish/config.fish"@),
        Shell::PowerShell => if windows {
            Some("Documents/WindowsPowerShell/Microsoft.PowerShell_profile.ps1"@)
        } else {
            Some(".config/powershell/Microsoft.PowerShell_profile.ps1"@)
        },
        Shell::Unknown => None,
    }
}

/// `content` without the old Blast block: from its marker up to and
/// including the first blank line after it, when both are there.
pub open spec fn without_old_block(content: Seq<char>) -> Seq<char> {
    match find_from(content, "# Blast environment manager"@, 0) {
        Some(start) => match find_from(content, "\n\n"@, start) {
            Some(end) => content.take(start) + content.skip(end + 2),
            None => content,
        },
        None => content,
    }
}

/// The rc file's new content: the old content without the previous block,
/// trimmed, then the marker and the shell function.
pub open spec fn rc_with_function(content: Seq<char>, function: Seq<char>) -> Seq<char> {
    trim(without_old_block(content)) + "\n\n# Blast environment manager integration\n"@ + function
        + "\n"@
}

/// Environment activation for one environment in one shell.
pub struct EnvironmentActivator {
    shell: Shell,
    env_path: String,
    env_name: String,
    state: ShellState,
}

impl EnvironmentActivator {
    #[verifier::type_invariant]
    spec fn socket_matches_name(self) -> bool {
        self.state.socket_path matches Some(p) && p@ == socket_path_for(self.env_name@)
    }

    pub closed spec fn shell_spec(self) -> Shell {
        self.shell
    }

    pub closed spec fn env_path_spec(self) -> Seq<char> {
        self.env_path@
    }

    pub closed spec fn env_name_spec(self) -> Seq<char> {
        self.env_name@
    }

    pub closed spec fn state_spec(self) -> ShellState {
        self.state
    }

    /// An activator for `shell` whose state is `state` with the environment
    /// marked active.
    pub fn with_shell(shell: Shell, state: ShellState, env_path: String, env_name: String) -> (a:
        Self)
        ensures
            a.shell_spec() == shell,
            a.env_path_spec() == env_path@,
            a.env_name_spec() == env_name@,
            a.state_spec().original_path() == state.original_path(),
            a.state_spec().original_pythonpath() == state.original_pythonpath(),
            a.state_spec().original_prompt() == state.original_prompt(),
            a.state_spec().active_env_name() == Some(env_name),
            a.state_spec().active_env_path() == Some(env_path),
            a.state_spec().socket_path() matches Some(p) && p@ == socket_path_for(env_name@),
    {
        let state = state.with_environment(env_name.clone(), env_path.clone());
        EnvironmentActivator { shell, env_path, env_name, state }
    }

    pub fn generate_activation_script(&self) -> (s: String)
        ensures
            s@ == activation_script(self.shell_spec(), self.env_path_spec(), self.env_name_spec()),
    {
        let scripts = ActivationScripts::generate(self.env_path.as_str(), self.env_name.as_str());
        match self.shell {
            Shell::Bash | Shell::Zsh => scripts.bash,
            Shell::Fish => scripts.fish,
            Shell::PowerShell => scripts.powershell,
            Shell::Unknown => String::from_str(UNSUPPORTED_SHELL_MESSAGE),
        }
    }

    pub fn generate_deactivation_script(&self) -> (s: String)
        ensures
            s@ == (if self.shell_spec() == Shell::Unknown {
                "echo 'Unsupported shell detected.'"@
            } else {
                "deactivate"@
            }),
    {
        String::from_str(self.shell.get_deactivation_command())
    }

    pub fn get_socket_path(&self) -> (r: Option<&str>)
        ensures
            r matches Some(p) ==> p@ == socket_path_for(self.env_name_spec()),
            r is Some,
    {
        proof {
            use_type_invariant(self);
        }
        self.state.socket()
    }

    pub fn env_path(&self) -> (p: &String)
        ensures
            p@ == self.env_path_spec(),
    {
        &self.env_path
    }

    pub fn env_name(&self) -> (n: &str)
        ensures
            n@ == self.env_name_spec(),
    {
        self.env_name.as_str()
    }

    pub fn shell(&self) -> (s: &Shell)
        ensures
            *s == self.shell_spec(),
    {
        &self.shell
    }

    pub fn generate_shell_function(&self) -> (s: String)
        ensures
            s@ == shell_function(self.shell_spec()),
    {
        match self.shell {
            Shell::Bash | Shell::Zsh => String::from_str(BASH_ZSH_SHELL_FUNCTION),
            Shell::Fish => String::from_str(FISH_SHELL_FUNCTION),
            Shell::PowerShell => String::from_str(POWERSHELL_SHELL_FUNCTION),
            Shell::Unknown => String::from_str("# Unsupported shell detected"),
        }
    }

    /// The rc file, relative to the home directory, that receives the shell
    /// function; `windows` selects the PowerShell profile location.
    pub fn rc_file(&self, windows: bool) -> (r: Option<&'static str>)
        ensures
            r matches Some(f) ==> rc_file_for(self.shell_spec(), windows) == Some(f@),
            r is None <==> rc_file_for(self.shell_spec(), windows) is None,
    {
        match self.shell {
            Shell::Bash => Some(".bashrc"),
            Shell::Zsh => Some(".zshrc"),
            Shell::Fish => Some(".config/fish/config.fish"),
            Shell::PowerShell => if windows {
                Some("Documents/WindowsPowerShell/Microsoft.PowerShell_profile.ps1")
            } else {
                Some(".config/powershell/Microsoft.PowerShell_profile.ps1")
            },
            Shell::Unknown => None,
        }
    }

    /// The rc file content after installing the shell function into `current`.
    pub fn rc_content_with_function(&self, current: &str) -> (s: String)
        ensures
            s@ == rc_with_function(current@, shell_function(self.shell_spec())),
    {
        let function_code = self.generate_shell_function();
        let v = chars_of(current);
        let mut kept: Vec<char> = Vec::new();
        let ghost cleaned = without_old_block(current@);
        match find_text(&v, "# Blast environment manager", 0) {
            Some(start) => match find_text(&v, "\n\n", start) {
                Some(end) => {
                    proof {
                        reveal_strlit("\n\n");
                    }
                    let mut i: usize = 0;
                    while i < start
                        invariant
                            v@ == current@,
                            v@.len() == v.len(),
                            start <= end,
                            end + 2 <= v@.len(),
                            i <= start <= v@.len(),
                            kept@ == v@.take(i as int),
                        decreases start - i,
                    {
                        kept.push(v[i]);
                        i += 1;
                        assert(kept@ =~= v@.take(i as int));
                    }
                    let mut j = end + 2;
                    while j < v.len()
                        invariant
                            v@ == current@,
                            v@.len() == v.len(),
                            end + 2 <= v@.len(),
                            end + 2 <= j <= v@.len(),
                            kept@ == v@.take(start as int) + v@.subrange(end + 2, j as int),
                        decreases v@.len() - j,
                    {
                        kept.push(v[j]);
                        j += 1;
                        assert(kept@ =~= v@.take(start as int) + v@.subrange(end + 2, j as int));
                    }
                    assert(v@.subrange(end + 2, v@.len() as int) =~= v@.skip(end + 2));
                    assert(kept@ =~= cleaned);
                },
                None => {
                    kept = v;
                },
            },
            None => {
                kept = v;
            },
        }
        let (a, b) = trim_bounds(&kept);
        let mut s = string_of_range(&kept, a, b);
        push_text(&mut s, "\n\n# Blast environment manager integration\n");
        push_text(&mut s, function_code.as_str());
        push_text(&mut s, "\n");
        s
    }
}

} // verus!
