//! First-run shell setup: which rc file receives Blast's shell function and
//! what it should contain afterwards.

use vstd::prelude::*;
use crate::error::{BlastError, BlastResult};
use crate::paths::{join, join_path};
use crate::shell::shell::Shell;
use crate::text::{opt_text, chars_of, contains_text, ends_with, has_infix, has_suffix, push_char, push_text};
use vstd::string::StringExecFns;

verus! {

/// Integration block appended to bash and zsh rc files.
pub const BASH_ZSH_FUNCTION: &'static str = r#"
# Blast environment manager shell integration
blast() {
    if [ "$1" = "start" ]; then
        # Get the actual blast binary path
        local blast_bin
        if ! blast_bin=$(command -v blast); then
            echo "Error: blast binary not found in PATH" >&2
            return 1
        fi

        local temp_file
        temp_file=$(mktemp)
        if "$blast_bin" "$@" > "$temp_file"; then
            . "$temp_file"
            rm -f "$temp_file"
        else
            rm -f "$temp_file"
            return 1
        fi
    else
        command blast "$@"
    fi
}
"#;

/// Integration block appended to the fish config file.
pub const FISH_FUNCTION: &'static str = r#"
# Blast environment manager shell integration
function blast
    if test "$argv[1]" = "start"
        # Get the actual blast binary path
        set -l blast_bin (command -s blast)
        if test -z "$blast_bin"
            echo "Error: blast binary not found in PATH" >&2
            return 1
        end

        set -l temp_file (mktemp)
        if "$blast_bin" $argv > $temp_file
            source $temp_file
            rm -f $temp_file
        else
            rm -f $temp_file
            return 1
        end
    else
        command blast $argv
    end
end
"#;

/// Integration block appended to the PowerShell profile.
pub const POWERSHELL_FUNCTION: &'static str = r#"
# Blast environment manager shell integration
function blast {
    if ($args[0] -eq "start") {
        # Get the actual blast binary path
        $blast_bin = Get-Command blast -ErrorAction SilentlyContinue
        if (-not $blast_bin) {
            Write-Error "Error: blast binary not found in PATH"
            return $false
        }

        $temp_file = [System.IO.Path]::GetTempFileName()
        if (& $blast_bin.Path @args > $temp_file) {
            . $temp_file
            Remove-Item $temp_file
        } else {
            Remove-Item $temp_file
            return $false
        }
    } else {
        & (Get-Command blast).Path @args
    }
}
"#;

/// The rc file of `shell` under the home directory `home`.
pub open spec fn config_file_for(shell: Shell, home: Seq<char>) -> Option<Seq<char>> {
    match shell {
        Shell::Bash => Some(join_path(home, ".bashrc"@)),
        Shell::Zsh => Some(join_path(home, ".zshrc"@)),
        Shell::Fish => Some(join_path(join_path(join_path(home, ".config"@), "fish"@), "config.fish"@)),
        Shell::PowerShell => Some(
            join_path(
                join_path(join_path(home, "Documents"@), "WindowsPowerShell"@),
                "Microsoft.PowerShell_profile.ps1"@,
            ),
        ),
        Shell::Unknown => None,
    }
}

/// The integration block for `shell`.
pub open spec fn integration_block(shell: Shell) -> Seq<char> {
    match shell {
        Shell::Bash | Shell::Zsh => BASH_ZSH_FUNCTION@,
        Shell::Fish => FISH_FUNCTION@,
        Shell::PowerShell => POWERSHELL_FUNCTION@,
        Shell::Unknown => Seq::empty(),
    }
}

/// An rc file that already holds a Blast shell function.
pub open spec fn is_configured(content: Option<Seq<char>>) -> bool {
    match content {
        Some(c) => has_infix(c, "blast() {"@) || has_infix(c, "function blast"@),
        None => false,
    }
}

/// The rc file's content after adding the block: the old content (if the
/// file exists) ending in a newline, then the block.
pub open spec fn content_with_block(existing: Option<Seq<char>>, block: Seq<char>) -> Seq<char> {
    let base = match existing {
        Some(c) => if has_suffix(c, "\n"@) {
            c
        } else {
            c.push('\n')
        },
        None => Seq::empty(),
    };
    base + block
}

/// Shell setup for the user's shell and its rc file.
pub struct ShellSetup {
    shell: Shell,
    config_file: String,
}

impl ShellSetup {
    pub closed spec fn shell_spec(self) -> Shell {
        self.shell
    }

    pub closed spec fn config_file_spec(self) -> Seq<char> {
        self.config_file@
    }

    /// Setup for `shell` with the home directory `home`; an unsupported shell
    /// is a configuration error.
    pub fn for_shell(shell: Shell, home: &str) -> (r: BlastResult<ShellSetup>)
        ensures
            shell == Shell::Unknown <==> r is Err,
            r matches Err(e) ==> e matches BlastError::Config(m) && m@ == "Unsupported shell"@,
            r matches Ok(s) ==> s.shell_spec() == shell && config_file_for(shell, home@) == Some(
                s.config_file_spec(),
            ),
    {
        let config_file = match shell {
            Shell::Bash => join(home, ".bashrc"),
            Shell::Zsh => join(home, ".zshrc"),
            Shell::Fish => {
                let c = join(home, ".config");
                let f = join(c.as_str(), "fish");
                join(f.as_str(), "config.fish")
            },
            Shell::PowerShell => {
                let d = join(home, "Documents");
                let w = join(d.as_str(), "WindowsPowerShell");
                join(w.as_str(), "Microsoft.PowerShell_profile.ps1")
            },
            Shell::Unknown => return Err(BlastError::Config(String::from_str("Unsupported shell"))),
        };
        Ok(ShellSetup { shell, config_file })
    }

    /// The shell this setup is for.
    pub fn shell(&self) -> (s: Shell)
        ensures
            s == self.shell_spec(),
    {
        self.shell
    }

    /// The rc file this setup writes.
    pub fn config_file(&self) -> (p: &str)
        ensures
            p@ == self.config_file_spec(),
    {
        self.config_file.as_str()
    }

    /// Whether the rc file content (`None` when the file does not exist)
    /// already holds a Blast shell function.
    pub fn is_already_configured(content: Option<&str>) -> (b: bool)
        ensures
            b == is_configured(opt_text(content)),
    {
        match content {
            Some(c) => {
                let v = chars_of(c);
                contains_text(&v, "blast() {") || contains_text(&v, "function blast")
            },
            None => false,
        }
    }

    /// What setting up the shell integration writes, given the rc file's
    /// current content (`None` when it does not exist): nothing when it is
    /// already configured, else the new content of the file.
    pub fn integration_update(&self, existing: Option<&str>) -> (r: BlastResult<Option<String>>)
        ensures
            is_configured(opt_text(existing)) ==> r matches Ok(None),
            !is_configured(opt_text(existing)) && self.shell_spec() == Shell::Unknown ==> (r matches Err(
                e,
            ) && e matches BlastError::Config(m) && m@ == "Unsupported shell"@),
            !is_configured(opt_text(existing)) && self.shell_spec() != Shell::Unknown ==> (r matches Ok(
                Some(c),
            ) && c@ == content_with_block(opt_text(existing), integration_block(self.shell_spec()))),
    {
        if Self::is_already_configured(existing) {
            return Ok(None);
        }
        let block = match self.shell {
            Shell::Bash | Shell::Zsh => BASH_ZSH_FUNCTION,
            Shell::Fish => FISH_FUNCTION,
            Shell::PowerShell => POWERSHELL_FUNCTION,
            Shell::Unknown => return Err(BlastError::Config(String::from_str("Unsupported shell"))),
        };
        let mut content = String::new();
        if let Some(c) = existing {
            push_text(&mut content, c);
            let v = chars_of(c);
            if !ends_with(&v, "\n") {
                push_char(&mut content, '\n');
            }
        }
        push_text(&mut content, block);
        proof {
            reveal_strlit("\n");
            assert("\n"@ =~= seq!['\n']);
        }
        Ok(Some(content))
    }

    pub fn get_shell_reload_command(&self) -> (s: &'static str)
        ensures
            s@ == (match self.shell_spec() {
                Shell::Bash => "source ~/.bashrc"@,
                Shell::Zsh => "source ~/.zshrc"@,
                Shell::Fish => "source ~/.config/fish/config.fish"@,
                Shell::PowerShell => ". $PROFILE"@,
                Shell::Unknown => ""@,
            }),
    {
        match self.shell {
            Shell::Bash => "source ~/.bashrc",
            Shell::Zsh => "source ~/.zshrc",
            Shell::Fish => "source ~/.config/fish/config.fish",
            Shell::PowerShell => ". $PROFILE",
            Shell::Unknown => "",
        }
    }
}

/// The bash and zsh block holds the Blast shell function.
proof fn lemma_bash_zsh_block()
    ensures
        has_infix(BASH_ZSH_FUNCTION@, "blast() {"@),
{
    reveal_strlit(r#"
# Blast environment manager shell integration
blast() {
    if [ "$1" = "start" ]; then
        # Get the actual blast binary path
        local blast_bin
        if ! blast_bin=$(command -v blast); then
            echo "Error: blast binary not found in PATH" >&2
            return 1
        fi

        local temp_file
        temp_file=$(mktemp)
        if "$blast_bin" "$@" > "$temp_file"; then
            . "$temp_file"
            rm -f "$temp_file"
        else
            rm -f "$temp_file"
            return 1
        fi
    else
        command blast "$@"
    fi
}
"#);
    reveal_strlit("blast() {");
    assert(BASH_ZSH_FUNCTION@.subrange(47, 56) =~= "blast() {"@);
    assert(BASH_ZSH_FUNCTION@.subrange(47, 47 + "blast() {"@.len() as int) == "blast() {"@);
}

/// The fish block holds the Blast shell function.
proof fn lemma_fish_block()
    ensures
        has_infix(FISH_FUNCTION@, "function blast"@),
{
    reveal_strlit(r#"
# Blast environment manager shell integration
function blast
    if test "$argv[1]" = "start"
        # Get the actual blast binary path
        set -l blast_bin (command -s blast)
        if test -z "$blast_bin"
            echo "Error: blast binary not found in PATH" >&2
            return 1
        end

        set -l temp_file (mktemp)
        if "$blast_bin" $argv > $temp_file
            source $temp_file
            rm -f $temp_file
        else
            rm -f $temp_file
            return 1
        end
    else
        command blast $argv
    end
end
"#);
    reveal_strlit("function blast");
    assert(FISH_FUNCTION@.subrange(47, 61) =~= "function blast"@);
    assert(FISH_FUNCTION@.subrange(47, 47 + "function blast"@.len() as int) == "function blast"@);
}

/// The PowerShell block holds the Blast shell function.
proof fn lemma_powershell_block()
    ensures
        has_infix(POWERSHELL_FUNCTION@, "function blast"@),
{
    reveal_strlit(r#"
# Blast environment manager shell integration
function blast {
    if ($args[0] -eq "start") {
        # Get the actual blast binary path
        $blast_bin = Get-Command blast -ErrorAction SilentlyContinue
        if (-not $blast_bin) {
            Write-Error "Error: blast binary not found in PATH"
            return $false
        }

        $temp_file = [System.IO.Path]::GetTempFileName()
        if (& $blast_bin.Path @args > $temp_file) {
            . $temp_file
            Remove-Item $temp_file
        } else {
            Remove-Item $temp_file
            return $false
        }
    } else {
        & (Get-Command blast).Path @args
    }
}
"#);
    reveal_strlit("function blast");
    assert(POWERSHELL_FUNCTION@.subrange(47, 61) =~= "function blast"@);
    assert(POWERSHELL_FUNCTION@.subrange(47, 47 + "function blast"@.len() as int) == "function blast"@);
}

/// The block for each supported shell holds the Blast shell function.
proof fn lemma_blocks_configured(shell: Shell)
    requires
        shell != Shell::Unknown,
    ensures
        is_configured(Some(integration_block(shell))),
{
    lemma_bash_zsh_block();
    lemma_fish_block();
    lemma_powershell_block();
}

/// Text that holds `m` still holds it with more text put before it.
proof fn lemma_infix_after(a: Seq<char>, b: Seq<char>, m: Seq<char>)
    requires
        has_infix(b, m),
    ensures
        has_infix(a + b, m),
{
    let i = choose|i: int| 0 <= i <= b.len() - m.len() && #[trigger] b.subrange(i, i + m.len()) == m;
    assert((a + b).subrange(a.len() + i, a.len() + i + m.len()) =~= b.subrange(i, i + m.len()));
}

/// Setting up the shell integration twice writes once: after the first
/// update for a supported shell, the rc file counts as configured, so the
/// next update writes nothing.
pub proof fn law_setup_idempotent(existing: Option<Seq<char>>, shell: Shell)
    requires
        shell != Shell::Unknown,
    ensures
        is_configured(Some(content_with_block(existing, integration_block(shell)))),
{
    lemma_blocks_configured(shell);
    let block = integration_block(shell);
    let base = match existing {
        Some(c) => if has_suffix(c, "\n"@) {
            c
        } else {
            c.push('\n')
        },
        None => Seq::empty(),
    };
    assert(content_with_block(existing, block) == base + block);
    if has_infix(block, "blast() {"@) {
        lemma_infix_after(base, block, "blast() {"@);
    } else {
        lemma_infix_after(base, block, "function blast"@);
    }
}

} // verus!
