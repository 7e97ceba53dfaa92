use cmt::commands::completions::{bash, fish, script_for, zsh};

#[test]
fn bash_lists_core_commands() {
    let s = bash();
    for c in [
        "commit",
        "lint",
        "init",
        "log",
        "types",
        "status",
        "amend",
        "uninstall",
        "completions",
        "version",
        "help",
    ] {
        assert!(s.contains(c), "missing {c}");
    }
}

#[test]
fn zsh_and_fish_list_core_commands() {
    for s in [zsh(), fish()] {
        for c in ["commit", "lint", "init", "log", "types", "status", "amend", "uninstall"] {
            assert!(s.contains(c), "missing {c}");
        }
    }
    assert!(zsh().ends_with("compdef _cmt cmt\n"));
    assert!(fish().starts_with("# cmt fish completions"));
}

#[test]
fn script_for_picks_the_named_shell() {
    assert_eq!(script_for(None), Some(bash()));
    assert_eq!(script_for(Some("bash")), Some(bash()));
    assert_eq!(script_for(Some("zsh")), Some(zsh()));
    assert_eq!(script_for(Some("fish")), Some(fish()));
    assert_eq!(script_for(Some("tcsh")), None);
}

#[test]
fn scripts_match_the_shipped_text() {
    assert_eq!(bash(), "# cmt bash completions — add to ~/.bashrc:  eval \"$(cmt completions bash)\"\n_cmt_completions() {\n  local cur=\"${COMP_WORDS[COMP_CWORD]}\"\n  local cmds=\"commit lint init log types status amend uninstall completions version help\"\n  COMPREPLY=( $(compgen -W \"$cmds\" -- \"$cur\") )\n}\ncomplete -F _cmt_completions cmt\n");
    assert_eq!(zsh(), "# cmt zsh completions — add to ~/.zshrc:  eval \"$(cmt completions zsh)\"\n_cmt() {\n  local -a cmds\n  cmds=(\n    'commit:Interactive commit builder'\n    'lint:Lint a commit message file or stdin'\n    'init:Set up repo with hook and config'\n    'log:Pretty log of recent commits'\n    'types:List available commit types'\n    'status:Show staged changes'\n    'amend:Amend the last commit'\n    'uninstall:Remove cmt-managed hooks'\n    'completions:Print shell completion scripts'\n    'version:Print version'\n    'help:Show help'\n  )\n  _describe 'command' cmds\n}\ncompdef _cmt cmt\n");
    assert_eq!(fish(), "# cmt fish completions — add to config.fish:  cmt completions fish | source\ncomplete -c cmt -f\ncomplete -c cmt -n '__fish_use_subcommand' -a commit     -d 'Interactive commit builder'\ncomplete -c cmt -n '__fish_use_subcommand' -a lint       -d 'Lint a commit message'\ncomplete -c cmt -n '__fish_use_subcommand' -a init       -d 'Set up repo with hook and config'\ncomplete -c cmt -n '__fish_use_subcommand' -a log        -d 'Pretty log of recent commits'\ncomplete -c cmt -n '__fish_use_subcommand' -a types      -d 'List available commit types'\ncomplete -c cmt -n '__fish_use_subcommand' -a status     -d 'Show staged changes'\ncomplete -c cmt -n '__fish_use_subcommand' -a amend      -d 'Amend the last commit'\ncomplete -c cmt -n '__fish_use_subcommand' -a uninstall  -d 'Remove cmt-managed hooks'\ncomplete -c cmt -n '__fish_use_subcommand' -a completions -d 'Print shell completion scripts'\ncomplete -c cmt -n '__fish_use_subcommand' -a version    -d 'Print version'\ncomplete -c cmt -n '__fish_use_subcommand' -a help       -d 'Show help'\n");
}
