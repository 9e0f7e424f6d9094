//! Activation script templates for the shells Blast supports. Each script
//! is a fixed text with the environment's path and name put in two places.

use vstd::prelude::*;
use crate::text::{has_infix, push_text};

verus! {
/// Fixed text of the bash/zsh activation script (head part).
pub const BASH_ZSH_HEAD: &'static str = r#"#!/bin/bash
# Blast environment activation script for bash/zsh

deactivate () {
    # reset old environment variables
    if [ -n "$_OLD_BLAST_PATH" ] ; then
        PATH="$_OLD_BLAST_PATH"
        export PATH
        unset _OLD_BLAST_PATH
    fi

    if [ -n "$_OLD_BLAST_PS1" ] ; then
        PS1="$_OLD_BLAST_PS1"
        export PS1
        unset _OLD_BLAST_PS1
    fi

    if [ -n "$BLAST_ENV" ] ; then
        unset BLAST_ENV
    fi

    if [ -n "$BLAST_ENV_NAME" ] ; then
        unset BLAST_ENV_NAME
    fi

    if [ ! "$1" = "nondestructive" ] ; then
        # Self destruct!
        unset -f deactivate
    fi
}

# unset irrelevant variables
deactivate nondestructive

_OLD_BLAST_PATH="$PATH"
_OLD_BLAST_PS1="${PS1:-}"
BLAST_ENV=""#;
/// Fixed text of the bash/zsh activation script (mid part).
pub const BASH_ZSH_MID: &'static str = r#""
BLAST_ENV_NAME=""#;
/// Fixed text of the bash/zsh activation script (tail part).
pub const BASH_ZSH_TAIL: &'static str = r#""

export BLAST_ENV
export BLAST_ENV_NAME
export _OLD_BLAST_PATH
export _OLD_BLAST_PS1

PATH="$BLAST_ENV/bin:$PATH"
export PATH

if [ -z "$BLAST_DISABLE_PROMPT" ] ; then
    PS1="(blast:$BLAST_ENV_NAME) $PS1"
    export PS1
fi

# This should detect bash and zsh, which have a hash command that must
# be called to get it to forget past commands.  Without forgetting
# past commands the $PATH changes we made may not be respected
if [ -n "$BASH" -o -n "$ZSH_VERSION" ] ; then
    hash -r 2>/dev/null
fi
"#;
/// Fixed text of the fish activation script (head part).
pub const FISH_HEAD: &'static str = r#"# Blast environment activation script for fish shell

function deactivate  -d "Exit blast environment and return to normal shell environment"
    # reset old environment variables
    if test -n "$_OLD_BLAST_PATH"
        set -gx PATH $_OLD_BLAST_PATH
        set -e _OLD_BLAST_PATH
    end

    if test -n "$_OLD_BLAST_PS1"
        functions -c $_OLD_BLAST_PS1 fish_prompt
        functions -e _OLD_BLAST_PS1
    end

    if test -n "$BLAST_ENV"
        set -e BLAST_ENV
    end

    if test -n "$BLAST_ENV_NAME"
        set -e BLAST_ENV_NAME
    end

    if test "$argv[1]" != "nondestructive"
        # Self destruct!
        functions -e deactivate
    end
end

# Unset irrelevant variables
deactivate nondestructive

set -gx BLAST_ENV ""#;
/// Fixed text of the fish activation script (mid part).
pub const FISH_MID: &'static str = r#""
set -gx BLAST_ENV_NAME ""#;
/// Fixed text of the fish activation script (tail part).
pub const FISH_TAIL: &'static str = r#""

set -gx _OLD_BLAST_PATH $PATH
set -gx PATH "$BLAST_ENV/bin" $PATH

if not set -q BLAST_DISABLE_PROMPT
    functions -c fish_prompt _old_fish_prompt
    function fish_prompt
        if test -n "(blast)"
            printf "%s%s" "(blast:$BLAST_ENV_NAME) " (_old_fish_prompt)
        else
            _old_fish_prompt
        end
    end
end
"#;
/// Fixed text of the powershell activation script (head part).
pub const POWERSHELL_HEAD: &'static str = r#"# Blast environment activation script for PowerShell

function global:deactivate ([switch]$NonDestructive) {
    if (Test-Path variable:_OLD_BLAST_PATH) {
        $env:PATH = $_OLD_BLAST_PATH
        Remove-Variable "_OLD_BLAST_PATH" -Scope global
    }

    if (Test-Path variable:_OLD_BLAST_PROMPT) {
        $env:PROMPT = $_OLD_BLAST_PROMPT
        Remove-Variable "_OLD_BLAST_PROMPT" -Scope global
    }

    if (Test-Path env:BLAST_ENV) {
        Remove-Item env:BLAST_ENV
    }

    if (Test-Path env:BLAST_ENV_NAME) {
        Remove-Item env:BLAST_ENV_NAME
    }

    if (!$NonDestructive) {
        # Self destruct!
        Remove-Item function:deactivate
    }
}

deactivate -NonDestructive

$_OLD_BLAST_PATH = $env:PATH
$_OLD_BLAST_PROMPT = $env:PROMPT

$env:BLAST_ENV = ""#;
/// Fixed text of the powershell activation script (mid part).
pub const POWERSHELL_MID: &'static str = r#""
$env:BLAST_ENV_NAME = ""#;
/// Fixed text of the powershell activation script (tail part).
pub const POWERSHELL_TAIL: &'static str = r#""
$env:PATH = "$env:BLAST_ENV\bin;$env:PATH"

if (!(Test-Path env:BLAST_DISABLE_PROMPT)) {
    $env:PROMPT = "(blast:$env:BLAST_ENV_NAME) " + $env:PROMPT
}
"#;
/// Fixed text of the csh activation script (head part).
pub const CSH_HEAD: &'static str = r#"# Blast environment activation script for csh shell

alias deactivate 'test $?_OLD_BLAST_PATH != 0 && setenv PATH "$_OLD_BLAST_PATH" && unset _OLD_BLAST_PATH; rehash; test $?_OLD_BLAST_PROMPT != 0 && set prompt="$_OLD_BLAST_PROMPT" && unset _OLD_BLAST_PROMPT; unsetenv BLAST_ENV; unsetenv BLAST_ENV_NAME; test "\!:*" != "nondestructive" && unalias deactivate'

# Unset irrelevant variables
deactivate nondestructive

setenv BLAST_ENV ""#;
/// Fixed text of the csh activation script (mid part).
pub const CSH_MID: &'static str = r#""
setenv BLAST_ENV_NAME ""#;
/// Fixed text of the csh activation script (tail part).
pub const CSH_TAIL: &'static str = r#""

set _OLD_BLAST_PATH="$PATH"
setenv PATH "$BLAST_ENV/bin:$PATH"

if ("" != "") then
    set _OLD_BLAST_PROMPT="$prompt"
endif

if (! "$?BLAST_DISABLE_PROMPT") then
    set prompt = "(blast:$BLAST_ENV_NAME) $prompt"
endif

rehash
"#;

/// A script made of `head`, the environment path, `mid`, the environment
/// name and `tail`.
pub open spec fn fill_template(
    head: Seq<char>,
    mid: Seq<char>,
    tail: Seq<char>,
    env_path: Seq<char>,
    env_name: Seq<char>,
) -> Seq<char> {
    head + env_path + mid + env_name + tail
}

/// A script whose head ends with the path assignment `a` and whose middle
/// is the name assignment `b` holds `a`, the path, `b`, the name and the
/// closing `q` that starts its tail, one after the other.
proof fn lemma_assignments_in_script(
    head: Seq<char>,
    mid: Seq<char>,
    tail: Seq<char>,
    env_path: Seq<char>,
    env_name: Seq<char>,
    a: Seq<char>,
    q: Seq<char>,
)
    requires
        head.len() >= a.len(),
        head.subrange(head.len() - a.len(), head.len() as int) == a,
        tail.len() >= q.len(),
        tail.subrange(0, q.len() as int) == q,
    ensures
        has_infix(fill_template(head, mid, tail, env_path, env_name), a + env_path + mid + env_name + q),
{
    let s = fill_template(head, mid, tail, env_path, env_name);
    let l = a + env_path + mid + env_name + q;
    let i = head.len() - a.len();
    assert forall|t: int| 0 <= t < l.len() implies s[i + t] == l[t] by {
        if t < a.len() {
            assert(head.subrange(i, head.len() as int)[t] == head[i + t]);
        } else if t >= a.len() + env_path.len() + mid.len() + env_name.len() {
            let u = t - (a.len() + env_path.len() + mid.len() + env_name.len());
            assert(tail.subrange(0, q.len() as int)[u] == tail[u]);
        }
    }
    assert(s.subrange(i, i + l.len()) =~= l);
}

/// Every activation script assigns the environment's path to `BLAST_ENV`
/// and, on the next line, its name to `BLAST_ENV_NAME`, each in quotes: the
/// path argument is what the path variable (and so `PATH`) gets, the name
/// argument what the prompt shows.
pub proof fn law_scripts_assign_path_then_name(env_path: Seq<char>, env_name: Seq<char>)
    ensures
        has_infix(fill_template(BASH_ZSH_HEAD@, BASH_ZSH_MID@, BASH_ZSH_TAIL@, env_path, env_name), r#"BLAST_ENV=""#@ + env_path + r#""
BLAST_ENV_NAME=""#@
            + env_name + "\""@),
        has_infix(fill_template(FISH_HEAD@, FISH_MID@, FISH_TAIL@, env_path, env_name), r#"set -gx BLAST_ENV ""#@ + env_path + r#""
set -gx BLAST_ENV_NAME ""#@
            + env_name + "\""@),
        has_infix(fill_template(POWERSHELL_HEAD@, POWERSHELL_MID@, POWERSHELL_TAIL@, env_path, env_name), r#"$env:BLAST_ENV = ""#@ + env_path + r#""
$env:BLAST_ENV_NAME = ""#@
            + env_name + "\""@),
        has_infix(fill_template(CSH_HEAD@, CSH_MID@, CSH_TAIL@, env_path, env_name), r#"setenv BLAST_ENV ""#@ + env_path + r#""
setenv BLAST_ENV_NAME ""#@
            + env_name + "\""@),
{
    reveal_strlit(r#"#!/bin/bash
# Blast environment activation script for bash/zsh

deactivate () {
    # reset old environment variables
    if [ -n "$_OLD_BLAST_PATH" ] ; then
        PATH="$_OLD_BLAST_PATH"
        export PATH
        unset _OLD_BLAST_PATH
    fi

    if [ -n "$_OLD_BLAST_PS1" ] ; then
        PS1="$_OLD_BLAST_PS1"
        export PS1
        unset _OLD_BLAST_PS1
    fi

    if [ -n "$BLAST_ENV" ] ; then
        unset BLAST_ENV
    fi

    if [ -n "$BLAST_ENV_NAME" ] ; then
        unset BLAST_ENV_NAME
    fi

    if [ ! "$1" = "nondestructive" ] ; then
        # Self destruct!
        unset -f deactivate
    fi
}

# unset irrelevant variables
deactivate nondestructive

_OLD_BLAST_PATH="$PATH"
_OLD_BLAST_PS1="${PS1:-}"
BLAST_ENV=""#);
    reveal_strlit(r#""
BLAST_ENV_NAME=""#);
    reveal_strlit(r#""

export BLAST_ENV
export BLAST_ENV_NAME
export _OLD_BLAST_PATH
export _OLD_BLAST_PS1

PATH="$BLAST_ENV/bin:$PATH"
export PATH

if [ -z "$BLAST_DISABLE_PROMPT" ] ; then
    PS1="(blast:$BLAST_ENV_NAME) $PS1"
    export PS1
fi

# This should detect bash and zsh, which have a hash command that must
# be called to get it to forget past commands.  Without forgetting
# past commands the $PATH changes we made may not be respected
if [ -n "$BASH" -o -n "$ZSH_VERSION" ] ; then
    hash -r 2>/dev/null
fi
"#);
    reveal_strlit(r#"BLAST_ENV=""#);
    reveal_strlit(r#""
BLAST_ENV_NAME=""#);
    reveal_strlit(r#"# Blast environment activation script for fish shell

function deactivate  -d "Exit blast environment and return to normal shell environment"
    # reset old environment variables
    if test -n "$_OLD_BLAST_PATH"
        set -gx PATH $_OLD_BLAST_PATH
        set -e _OLD_BLAST_PATH
    end

    if test -n "$_OLD_BLAST_PS1"
        functions -c $_OLD_BLAST_PS1 fish_prompt
        functions -e _OLD_BLAST_PS1
    end

    if test -n "$BLAST_ENV"
        set -e BLAST_ENV
    end

    if test -n "$BLAST_ENV_NAME"
        set -e BLAST_ENV_NAME
    end

    if test "$argv[1]" != "nondestructive"
        # Self destruct!
        functions -e deactivate
    end
end

# Unset irrelevant variables
deactivate nondestructive

set -gx BLAST_ENV ""#);
    reveal_strlit(r#""
set -gx BLAST_ENV_NAME ""#);
    reveal_strlit(r#""

set -gx _OLD_BLAST_PATH $PATH
set -gx PATH "$BLAST_ENV/bin" $PATH

if not set -q BLAST_DISABLE_PROMPT
    functions -c fish_prompt _old_fish_prompt
    function fish_prompt
        if test -n "(blast)"
            printf "%s%s" "(blast:$BLAST_ENV_NAME) " (_old_fish_prompt)
        else
            _old_fish_prompt
        end
    end
end
"#);
    reveal_strlit(r#"set -gx BLAST_ENV ""#);
    reveal_strlit(r#""
set -gx BLAST_ENV_NAME ""#);
    reveal_strlit(r#"# Blast environment activation script for PowerShell

function global:deactivate ([switch]$NonDestructive) {
    if (Test-Path variable:_OLD_BLAST_PATH) {
        $env:PATH = $_OLD_BLAST_PATH
        Remove-Variable "_OLD_BLAST_PATH" -Scope global
    }

    if (Test-Path variable:_OLD_BLAST_PROMPT) {
        $env:PROMPT = $_OLD_BLAST_PROMPT
        Remove-Variable "_OLD_BLAST_PROMPT" -Scope global
    }

    if (Test-Path env:BLAST_ENV) {
        Remove-Item env:BLAST_ENV
    }

    if (Test-Path env:BLAST_ENV_NAME) {
        Remove-Item env:BLAST_ENV_NAME
    }

    if (!$NonDestructive) {
        # Self destruct!
        Remove-Item function:deactivate
    }
}

deactivate -NonDestructive

$_OLD_BLAST_PATH = $env:PATH
$_OLD_BLAST_PROMPT = $env:PROMPT

$env:BLAST_ENV = ""#);
    reveal_strlit(r#""
$env:BLAST_ENV_NAME = ""#);
    reveal_strlit(r#""
$env:PATH = "$env:BLAST_ENV\bin;$env:PATH"

if (!(Test-Path env:BLAST_DISABLE_PROMPT)) {
    $env:PROMPT = "(blast:$env:BLAST_ENV_NAME) " + $env:PROMPT
}
"#);
    reveal_strlit(r#"$env:BLAST_ENV = ""#);
    reveal_strlit(r#""
$env:BLAST_ENV_NAME = ""#);
    reveal_strlit(r#"# Blast environment activation script for csh shell

alias deactivate 'test $?_OLD_BLAST_PATH != 0 && setenv PATH "$_OLD_BLAST_PATH" && unset _OLD_BLAST_PATH; rehash; test $?_OLD_BLAST_PROMPT != 0 && set prompt="$_OLD_BLAST_PROMPT" && unset _OLD_BLAST_PROMPT; unsetenv BLAST_ENV; unsetenv BLAST_ENV_NAME; test "\!:*" != "nondestructive" && unalias deactivate'

# Unset irrelevant variables
deactivate nondestructive

setenv BLAST_ENV ""#);
    reveal_strlit(r#""
setenv BLAST_ENV_NAME ""#);
    reveal_strlit(r#""

set _OLD_BLAST_PATH="$PATH"
setenv PATH "$BLAST_ENV/bin:$PATH"

if ("" != "") then
    set _OLD_BLAST_PROMPT="$prompt"
endif

if (! "$?BLAST_DISABLE_PROMPT") then
    set prompt = "(blast:$BLAST_ENV_NAME) $prompt"
endif

rehash
"#);
    reveal_strlit(r#"setenv BLAST_ENV ""#);
    reveal_strlit(r#""
setenv BLAST_ENV_NAME ""#);
    reveal_strlit("\"");
    assert(BASH_ZSH_HEAD@.subrange(BASH_ZSH_HEAD@.len() - r#"BLAST_ENV=""#@.len(), BASH_ZSH_HEAD@.len() as int) =~= r#"BLAST_ENV=""#@);
    assert(BASH_ZSH_TAIL@.subrange(0, 1) =~= "\""@);
    assert(BASH_ZSH_MID@ =~= r#""
BLAST_ENV_NAME=""#@);
    lemma_assignments_in_script(BASH_ZSH_HEAD@, BASH_ZSH_MID@, BASH_ZSH_TAIL@, env_path, env_name, r#"BLAST_ENV=""#@, "\""@);
    assert(FISH_HEAD@.subrange(FISH_HEAD@.len() - r#"set -gx BLAST_ENV ""#@.len(), FISH_HEAD@.len() as int) =~= r#"set -gx BLAST_ENV ""#@);
    assert(FISH_TAIL@.subrange(0, 1) =~= "\""@);
    assert(FISH_MID@ =~= r#""
set -gx BLAST_ENV_NAME ""#@);
    lemma_assignments_in_script(FISH_HEAD@, FISH_MID@, FISH_TAIL@, env_path, env_name, r#"set -gx BLAST_ENV ""#@, "\""@);
    assert(POWERSHELL_HEAD@.subrange(POWERSHELL_HEAD@.len() - r#"$env:BLAST_ENV = ""#@.len(), POWERSHELL_HEAD@.len() as int) =~= r#"$env:BLAST_ENV = ""#@);
    assert(POWERSHELL_TAIL@.subrange(0, 1) =~= "\""@);
    assert(POWERSHELL_MID@ =~= r#""
$env:BLAST_ENV_NAME = ""#@);
    lemma_assignments_in_script(POWERSHELL_HEAD@, POWERSHELL_MID@, POWERSHELL_TAIL@, env_path, env_name, r#"$env:BLAST_ENV = ""#@, "\""@);
    assert(CSH_HEAD@.subrange(CSH_HEAD@.len() - r#"setenv BLAST_ENV ""#@.len(), CSH_HEAD@.len() as int) =~= r#"setenv BLAST_ENV ""#@);
    assert(CSH_TAIL@.subrange(0, 1) =~= "\""@);
    assert(CSH_MID@ =~= r#""
setenv BLAST_ENV_NAME ""#@);
    lemma_assignments_in_script(CSH_HEAD@, CSH_MID@, CSH_TAIL@, env_path, env_name, r#"setenv BLAST_ENV ""#@, "\""@);
}

/// Builds a script from its fixed parts and the environment's path and name.
fn render(head: &str, mid: &str, tail: &str, env_path: &str, env_name: &str) -> (s: String)
    ensures
        s@ == fill_template(head@, mid@, tail@, env_path@, env_name@),
{
    let mut s = String::new();
    push_text(&mut s, head);
    push_text(&mut s, env_path);
    push_text(&mut s, mid);
    push_text(&mut s, env_name);
    push_text(&mut s, tail);
    assert(s@ =~= fill_template(head@, mid@, tail@, env_path@, env_name@));
    s
}

/// Shell activation script templates for different shells
pub struct ShellScripts;

impl ShellScripts {
    /// Generate activation script for bash/zsh shells
    pub fn bash_zsh(env_path: &str, env_name: &str) -> (s: String)
        ensures
            s@ == fill_template(BASH_ZSH_HEAD@, BASH_ZSH_MID@, BASH_ZSH_TAIL@, env_path@, env_name@),
    {
        render(BASH_ZSH_HEAD, BASH_ZSH_MID, BASH_ZSH_TAIL, env_path, env_name)
    }

    /// Generate activation script for fish shell
    pub fn fish(env_path: &str, env_name: &str) -> (s: String)
        ensures
            s@ == fill_template(FISH_HEAD@, FISH_MID@, FISH_TAIL@, env_path@, env_name@),
    {
        render(FISH_HEAD, FISH_MID, FISH_TAIL, env_path, env_name)
    }

    /// Generate activation script for PowerShell
    pub fn powershell(env_path: &str, env_name: &str) -> (s: String)
        ensures
            s@ == fill_template(POWERSHELL_HEAD@, POWERSHELL_MID@, POWERSHELL_TAIL@, env_path@, env_name@),
    {
        render(POWERSHELL_HEAD, POWERSHELL_MID, POWERSHELL_TAIL, env_path, env_name)
    }

    /// Generate activation script for csh shell
    pub fn csh(env_path: &str, env_name: &str) -> (s: String)
        ensures
            s@ == fill_template(CSH_HEAD@, CSH_MID@, CSH_TAIL@, env_path@, env_name@),
    {
        render(CSH_HEAD, CSH_MID, CSH_TAIL, env_path, env_name)
    }

}

/// Represents the activation scripts for a blast environment
pub struct ActivationScripts {
    pub bash: String,
    pub fish: String,
    pub csh: String,
    pub powershell: String,
}

impl ActivationScripts {
    /// Generate all activation scripts for an environment
    pub fn generate(env_path: &str, env_name: &str) -> (r: Self)
        ensures
            r.bash@ == fill_template(BASH_ZSH_HEAD@, BASH_ZSH_MID@, BASH_ZSH_TAIL@, env_path@, env_name@),
            r.fish@ == fill_template(FISH_HEAD@, FISH_MID@, FISH_TAIL@, env_path@, env_name@),
            r.csh@ == fill_template(CSH_HEAD@, CSH_MID@, CSH_TAIL@, env_path@, env_name@),
            r.powershell@ == fill_template(
                POWERSHELL_HEAD@,
                POWERSHELL_MID@,
                POWERSHELL_TAIL@,
                env_path@,
                env_name@,
            ),
    {
        ActivationScripts {
            bash: ShellScripts::bash_zsh(env_path, env_name),
            fish: ShellScripts::fish(env_path, env_name),
            csh: ShellScripts::csh(env_path, env_name),
            powershell: ShellScripts::powershell(env_path, env_name),
        }
    }
}

} // verus!
