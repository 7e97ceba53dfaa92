//! The help text.
use vstd::prelude::*;
use crate::text::push_str;
use crate::ui::Palette;

verus! {

/// The pieces of a text, one after the other.
pub open spec fn concat_all(ps: Seq<Seq<char>>) -> Seq<char>
    decreases ps.len(),
{
    if ps.len() == 0 {
        seq![]
    } else {
        concat_all(ps.drop_last()) + ps.last()
    }
}

/// The pieces written one after the other.
pub fn concat_pieces(ps: &Vec<&str>) -> (s: String)
    ensures
        s@ == concat_all(ps@.map_values(|x: &str| x@)),
{
    let ghost all = ps@.map_values(|x: &str| x@);
    let mut s = String::new();
    let mut i: usize = 0;
    while i < ps.len()
        invariant
            i <= ps@.len(),
            all == ps@.map_values(|x: &str| x@),
            s@ == concat_all(all.take(i as int)),
        decreases ps.len() - i,
    {
        push_str(&mut s, ps[i]);
        assert(all.take(i + 1).drop_last() == all.take(i as int));
        i += 1;
    }
    assert(all.take(ps@.len() as int) == all);
    s
}

/// The pieces of the help text for a palette and a version number.
pub open spec fn help_pieces(p: &Palette, version: &str) -> Seq<Seq<char>> {
    seq![
        "\n"@,
        p.bold@,
        p.accent@,
        "cmt"@,
        p.reset@,
        " v"@,
        version@,
        " — Conventional Commits CLI\n\n"@,
        p.bold@,
        "USAGE"@,
        p.reset@,
        "\n  cmt <command> [options]\n\n"@,
        p.bold@,
        "COMMANDS"@,
        p.reset@,
        "\n  "@,
        p.accent@,
        "init"@,
        p.reset@,
        " [--husky] [--lint]       Create .cmt.json + install prepare-commit-msg hook\n                        --husky  write to .husky/  (husky v9, committable)\n                        --lint   also install commit-msg linting hook\n                        default  write to .git/hooks/  (local)\n\n  "@,
        p.accent@,
        "commit"@,
        p.reset@,
        " [--dry-run]         Interactive commit builder\n                        --dry-run  show assembled message, do not commit\n\n  "@,
        p.accent@,
        "amend"@,
        p.reset@,
        "                    Amend the last commit (rebuild or raw edit)\n\n  "@,
        p.accent@,
        "status"@,
        p.reset@,
        "                   Show staged changes\n\n  "@,
        p.accent@,
        "lint"@,
        p.reset@,
        " [file]              Lint a commit message file or stdin\n\n  "@,
        p.accent@,
        "log"@,
        p.reset@,
        " [n] [--type=<t>]     Pretty log — last n commits  (default: 20)\n      [--author=<a>]     filter by type or author substring\n\n  "@,
        p.accent@,
        "types"@,
        p.reset@,
        "                    List available types\n\n  "@,
        p.accent@,
        "completions"@,
        p.reset@,
        " [bash|zsh|fish]  Print shell completion script\n\n  "@,
        p.accent@,
        "uninstall"@,
        p.reset@,
        "                Remove cmt-managed hooks\n\n"@,
        p.bold@,
        "EXAMPLES"@,
        p.reset@,
        "\n  cmt init                       # set up repo — done in one step\n  cmt commit                     # guided commit\n  cmt commit --dry-run           # preview message without committing\n  cmt amend                      # fix last commit\n  cmt log 10 --type=feat         # last 10 feat commits\n  echo 'fix: typo' | cmt lint\n\n"@,
        p.bold@,
        "SHELL COMPLETIONS"@,
        p.reset@,
        "\n  bash   Add to ~/.bashrc:    eval \"$(cmt completions bash)\"\n  zsh    Add to ~/.zshrc:     eval \"$(cmt completions zsh)\"\n  fish   Add to config.fish:  cmt completions fish | source\n\n"@,
        p.bold@,
        "CONFIG"@,
        p.reset@,
        "  .cmt.json  (JSON Schema -> intellisense in VS Code / JetBrains)\n\n"@,
    ]
}

/// The help text: usage, commands, examples, shell completions and the
/// configuration file, in the palette's colors.
pub fn help_text(p: &Palette, version: &str) -> (s: String)
    ensures
        s@ == concat_all(help_pieces(p, version)),
{
    let ps: Vec<&str> = vec![
        "\n",
        p.bold,
        p.accent,
        "cmt",
        p.reset,
        " v",
        version,
        " — Conventional Commits CLI\n\n",
        p.bold,
        "USAGE",
        p.reset,
        "\n  cmt <command> [options]\n\n",
        p.bold,
        "COMMANDS",
        p.reset,
        "\n  ",
        p.accent,
        "init",
        p.reset,
        " [--husky] [--lint]       Create .cmt.json + install prepare-commit-msg hook\n                        --husky  write to .husky/  (husky v9, committable)\n                        --lint   also install commit-msg linting hook\n                        default  write to .git/hooks/  (local)\n\n  ",
        p.accent,
        "commit",
        p.reset,
        " [--dry-run]         Interactive commit builder\n                        --dry-run  show assembled message, do not commit\n\n  ",
        p.accent,
        "amend",
        p.reset,
        "                    Amend the last commit (rebuild or raw edit)\n\n  ",
        p.accent,
        "status",
        p.reset,
        "                   Show staged changes\n\n  ",
        p.accent,
        "lint",
        p.reset,
        " [file]              Lint a commit message file or stdin\n\n  ",
        p.accent,
        "log",
        p.reset,
        " [n] [--type=<t>]     Pretty log — last n commits  (default: 20)\n      [--author=<a>]     filter by type or author substring\n\n  ",
        p.accent,
        "types",
        p.reset,
        "                    List available types\n\n  ",
        p.accent,
        "completions",
        p.reset,
        " [bash|zsh|fish]  Print shell completion script\n\n  ",
        p.accent,
        "uninstall",
        p.reset,
        "                Remove cmt-managed hooks\n\n",
        p.bold,
        "EXAMPLES",
        p.reset,
        "\n  cmt init                       # set up repo — done in one step\n  cmt commit                     # guided commit\n  cmt commit --dry-run           # preview message without committing\n  cmt amend                      # fix last commit\n  cmt log 10 --type=feat         # last 10 feat commits\n  echo 'fix: typo' | cmt lint\n\n",
        p.bold,
        "SHELL COMPLETIONS",
        p.reset,
        "\n  bash   Add to ~/.bashrc:    eval \"$(cmt completions bash)\"\n  zsh    Add to ~/.zshrc:     eval \"$(cmt completions zsh)\"\n  fish   Add to config.fish:  cmt completions fish | source\n\n",
        p.bold,
        "CONFIG",
        p.reset,
        "  .cmt.json  (JSON Schema -> intellisense in VS Code / JetBrains)\n\n",
    ];
    assert(ps@.map_values(|x: &str| x@) =~= help_pieces(p, version));
    concat_pieces(&ps)
}

} // verus!
