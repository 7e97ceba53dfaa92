//! Shell completion scripts.
use vstd::prelude::*;
use crate::text::{str_eq, string_of};

verus! {

pub open spec fn bash_script() -> Seq<char> {
    "# cmt bash completions — add to ~/.bashrc:  eval \"$(cmt completions bash)\"\n_cmt_completions() {\n  local cur=\"${COMP_WORDS[COMP_CWORD]}\"\n  local cmds=\"commit lint init log types status amend uninstall completions version help\"\n  COMPREPLY=( $(compgen -W \"$cmds\" -- \"$cur\") )\n}\ncomplete -F _cmt_completions cmt\n"@
}

pub open spec fn zsh_script() -> Seq<char> {
    "# cmt zsh completions — add to ~/.zshrc:  eval \"$(cmt completions zsh)\"\n_cmt() {\n  local -a cmds\n  cmds=(\n    'commit:Interactive commit builder'\n    'lint:Lint a commit message file or stdin'\n    'init:Set up repo with hook and config'\n    'log:Pretty log of recent commits'\n    'types:List available commit types'\n    'status:Show staged changes'\n    'amend:Amend the last commit'\n    'uninstall:Remove cmt-managed hooks'\n    'completions:Print shell completion scripts'\n    'version:Print version'\n    'help:Show help'\n  )\n  _describe 'command' cmds\n}\ncompdef _cmt cmt\n"@
}

pub open spec fn fish_script() -> Seq<char> {
    "# cmt fish completions — add to config.fish:  cmt completions fish | source\ncomplete -c cmt -f\ncomplete -c cmt -n '__fish_use_subcommand' -a commit     -d 'Interactive commit builder'\ncomplete -c cmt -n '__fish_use_subcommand' -a lint       -d 'Lint a commit message'\ncomplete -c cmt -n '__fish_use_subcommand' -a init       -d 'Set up repo with hook and config'\ncomplete -c cmt -n '__fish_use_subcommand' -a log        -d 'Pretty log of recent commits'\ncomplete -c cmt -n '__fish_use_subcommand' -a types      -d 'List available commit types'\ncomplete -c cmt -n '__fish_use_subcommand' -a status     -d 'Show staged changes'\ncomplete -c cmt -n '__fish_use_subcommand' -a amend      -d 'Amend the last commit'\ncomplete -c cmt -n '__fish_use_subcommand' -a uninstall  -d 'Remove cmt-managed hooks'\ncomplete -c cmt -n '__fish_use_subcommand' -a completions -d 'Print shell completion scripts'\ncomplete -c cmt -n '__fish_use_subcommand' -a version    -d 'Print version'\ncomplete -c cmt -n '__fish_use_subcommand' -a help       -d 'Show help'\n"@
}

/// The bash completion script.
pub fn bash() -> (s: String)
    ensures
        s@ == bash_script(),
{
    string_of("# cmt bash completions — add to ~/.bashrc:  eval \"$(cmt completions bash)\"\n_cmt_completions() {\n  local cur=\"${COMP_WORDS[COMP_CWORD]}\"\n  local cmds=\"commit lint init log types status amend uninstall completions version help\"\n  COMPREPLY=( $(compgen -W \"$cmds\" -- \"$cur\") )\n}\ncomplete -F _cmt_completions cmt\n")
}

/// The zsh completion script.
pub fn zsh() -> (s: String)
    ensures
        s@ == zsh_script(),
{
    string_of("# cmt zsh completions — add to ~/.zshrc:  eval \"$(cmt completions zsh)\"\n_cmt() {\n  local -a cmds\n  cmds=(\n    'commit:Interactive commit builder'\n    'lint:Lint a commit message file or stdin'\n    'init:Set up repo with hook and config'\n    'log:Pretty log of recent commits'\n    'types:List available commit types'\n    'status:Show staged changes'\n    'amend:Amend the last commit'\n    'uninstall:Remove cmt-managed hooks'\n    'completions:Print shell completion scripts'\n    'version:Print version'\n    'help:Show help'\n  )\n  _describe 'command' cmds\n}\ncompdef _cmt cmt\n")
}

/// The fish completion script.
pub fn fish() -> (s: String)
    ensures
        s@ == fish_script(),
{
    string_of("# cmt fish completions — add to config.fish:  cmt completions fish | source\ncomplete -c cmt -f\ncomplete -c cmt -n '__fish_use_subcommand' -a commit     -d 'Interactive commit builder'\ncomplete -c cmt -n '__fish_use_subcommand' -a lint       -d 'Lint a commit message'\ncomplete -c cmt -n '__fish_use_subcommand' -a init       -d 'Set up repo with hook and config'\ncomplete -c cmt -n '__fish_use_subcommand' -a log        -d 'Pretty log of recent commits'\ncomplete -c cmt -n '__fish_use_subcommand' -a types      -d 'List available commit types'\ncomplete -c cmt -n '__fish_use_subcommand' -a status     -d 'Show staged changes'\ncomplete -c cmt -n '__fish_use_subcommand' -a amend      -d 'Amend the last commit'\ncomplete -c cmt -n '__fish_use_subcommand' -a uninstall  -d 'Remove cmt-managed hooks'\ncomplete -c cmt -n '__fish_use_subcommand' -a completions -d 'Print shell completion scripts'\ncomplete -c cmt -n '__fish_use_subcommand' -a version    -d 'Print version'\ncomplete -c cmt -n '__fish_use_subcommand' -a help       -d 'Show help'\n")
}

/// The script for a shell named on the command line (`bash` when none is
/// named); `None` for an unknown shell.
pub fn script_for(shell: Option<&str>) -> (r: Option<String>)
    ensures
        match r {
            Some(s) => {
                let name = match shell {
                    Some(n) => n@,
                    None => "bash"@,
                };
                ||| name == "bash"@ && s@ == bash_script()
                ||| name == "zsh"@ && s@ == zsh_script()
                ||| name == "fish"@ && s@ == fish_script()
            },
            None => match shell {
                Some(n) => n@ != "bash"@ && n@ != "zsh"@ && n@ != "fish"@,
                None => false,
            },
        },
{
    let name = match shell {
        Some(n) => n,
        None => "bash",
    };
    if str_eq(name, "bash") {
        Some(bash())
    } else if str_eq(name, "zsh") {
        Some(zsh())
    } else if str_eq(name, "fish") {
        Some(fish())
    } else {
        None
    }
}

} // verus!
