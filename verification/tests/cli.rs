use cmt::cli::{has_flag, parse_command, Command};
use cmt::commands::help::help_text;
use cmt::ui::Palette;

fn args(v: &[&str]) -> Vec<String> {
    v.iter().map(|s| s.to_string()).collect()
}

#[test]
fn commands_and_short_forms() {
    assert!(parse_command(&args(&[])) == Command::Commit { write_only: false, dry_run: false });
    assert!(parse_command(&args(&["c", "--dry-run"])) == Command::Commit { write_only: false, dry_run: true });
    assert!(
        parse_command(&args(&["commit", "--write-only"])) == Command::Commit { write_only: true, dry_run: false }
    );
    assert!(parse_command(&args(&["a"])) == Command::Amend);
    assert!(parse_command(&args(&["l", "msg.txt"])) == Command::Lint);
    assert!(parse_command(&args(&["init", "--lint"])) == Command::Init);
    assert!(parse_command(&args(&["log"])) == Command::Log);
    assert!(parse_command(&args(&["s"])) == Command::Status);
    assert!(parse_command(&args(&["t"])) == Command::Types);
    assert!(parse_command(&args(&["completions", "zsh"])) == Command::Completions);
    assert!(parse_command(&args(&["uninstall"])) == Command::Uninstall);
    assert!(parse_command(&args(&["-v"])) == Command::Version);
    assert!(parse_command(&args(&["--version"])) == Command::Version);
    assert!(parse_command(&args(&["frobnicate"])) == Command::Help);
}

#[test]
fn flags_are_looked_for_after_the_command() {
    assert!(has_flag(&args(&["init", "--husky"]), 1, "--husky"));
    assert!(!has_flag(&args(&["--husky"]), 1, "--husky"));
    assert!(!has_flag(&args(&[]), 1, "--husky"));
}

#[test]
fn version_flag_prints_version() {
    assert!(parse_command(&args(&["--version"])) == Command::Version);
}

#[test]
fn help_lists_commands_with_version() {
    let h = help_text(&Palette::plain(), "2.0.0");
    assert!(h.starts_with("\ncmt v2.0.0 — Conventional Commits CLI\n\nUSAGE\n  cmt <command> [options]\n\nCOMMANDS\n  init [--husky] [--lint]"));
    assert!(h.ends_with("CONFIG  .cmt.json  (JSON Schema -> intellisense in VS Code / JetBrains)\n\n"));
    for c in ["commit", "amend", "status", "lint", "log", "types", "completions", "uninstall"] {
        assert!(h.contains(&format!("\n  {c}")), "missing {c}");
    }
}

#[test]
fn help_text_in_plain_colors() {
    let expected = "\ncmt v2.0.0 — Conventional Commits CLI\n\nUSAGE\n  cmt <command> [options]\n\nCOMMANDS\n  init [--husky] [--lint]       Create .cmt.json + install prepare-commit-msg hook\n                        --husky  write to .husky/  (husky v9, committable)\n                        --lint   also install commit-msg linting hook\n                        default  write to .git/hooks/  (local)\n\n  commit [--dry-run]         Interactive commit builder\n                        --dry-run  show assembled message, do not commit\n\n  amend                    Amend the last commit (rebuild or raw edit)\n\n  status                   Show staged changes\n\n  lint [file]              Lint a commit message file or stdin\n\n  log [n] [--type=<t>]     Pretty log — last n commits  (default: 20)\n      [--author=<a>]     filter by type or author substring\n\n  types                    List available types\n\n  completions [bash|zsh|fish]  Print shell completion script\n\n  uninstall                Remove cmt-managed hooks\n\nEXAMPLES\n  cmt init                       # set up repo — done in one step\n  cmt commit                     # guided commit\n  cmt commit --dry-run           # preview message without committing\n  cmt amend                      # fix last commit\n  cmt log 10 --type=feat         # last 10 feat commits\n  echo 'fix: typo' | cmt lint\n\nSHELL COMPLETIONS\n  bash   Add to ~/.bashrc:    eval \"$(cmt completions bash)\"\n  zsh    Add to ~/.zshrc:     eval \"$(cmt completions zsh)\"\n  fish   Add to config.fish:  cmt completions fish | source\n\nCONFIG  .cmt.json  (JSON Schema -> intellisense in VS Code / JetBrains)\n\n";
    assert_eq!(help_text(&Palette::plain(), "2.0.0"), expected);
}
