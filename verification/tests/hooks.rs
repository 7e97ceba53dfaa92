use cmt::hooks::{lint_snippet, plan_install, plan_remove, prepare_snippet, strip_block, Outcome};

const PREPARE_FRESH_AFTER: &str = "#!/usr/bin/env bash\n# >>> cmt \u{2014} Conventional Commits CLI\n[ -n \"${2:-}\" ] && exit 0\n_cmt_bin=\"\"\nfor _p in \"./node_modules/.bin/cmt\" \"$HOME/.local/bin/cmt\" \"/usr/local/bin/cmt\" \"/opt/homebrew/bin/cmt\"; do\n  [ -x \"$_p\" ] && { _cmt_bin=\"$_p\"; break; }\ndone\n[ -z \"$_cmt_bin\" ] && _cmt_bin=$(command -v cmt 2>/dev/null)\n[ -n \"$_cmt_bin\" ] && { \"$_cmt_bin\" commit --write-only > \"$1\"; exit 0; }\nexit 0\n# <<< cmt\n";

const COMMITMSG_FRESH_AFTER: &str = "#!/usr/bin/env bash\n# >>> cmt-lint \u{2014} Conventional Commits CLI\n_cmt_bin=\"\"\nfor _p in \"./node_modules/.bin/cmt\" \"$HOME/.local/bin/cmt\" \"/usr/local/bin/cmt\" \"/opt/homebrew/bin/cmt\"; do\n  [ -x \"$_p\" ] && { _cmt_bin=\"$_p\"; break; }\ndone\n[ -z \"$_cmt_bin\" ] && _cmt_bin=$(command -v cmt 2>/dev/null)\n[ -n \"$_cmt_bin\" ] && { \"$_cmt_bin\" lint \"$1\"; exit $?; }\nexit 0\n# <<< cmt-lint\n";

#[test]
fn replace_is_idempotent() {
    let (once, first) = plan_install(None, &prepare_snippet(), "cmt", true);
    assert_eq!(first, Outcome::Created);
    let (again, out) = plan_install(Some(&once), &prepare_snippet(), "cmt", true);
    assert_eq!(out, Outcome::Updated);
    assert_eq!(again, once);
    let (r, _) = plan_remove(Some(&again), "cmt");
    assert_eq!(r, Outcome::RemovedFile);
}

#[test]
fn fresh_install_matches_fixture() {
    let (got, outcome) = plan_install(None, &prepare_snippet(), "cmt", true);
    assert_eq!(outcome, Outcome::Created);
    assert_eq!(got, PREPARE_FRESH_AFTER);
}

#[test]
fn fresh_lint_install_matches_fixture() {
    let (got, outcome) = plan_install(None, &lint_snippet(), "cmt-lint", true);
    assert_eq!(outcome, Outcome::Created);
    assert_eq!(got, COMMITMSG_FRESH_AFTER);
}

#[test]
fn husky_install_has_no_shebang() {
    let (got, _) = plan_install(None, &prepare_snippet(), "cmt", false);
    assert_eq!(got, prepare_snippet());
}

#[test]
fn install_appends_to_a_foreign_hook_and_removal_keeps_it() {
    let mine = "#!/bin/sh\nnpm test\n";
    let (with_block, outcome) = plan_install(Some(mine), &prepare_snippet(), "cmt", true);
    assert_eq!(outcome, Outcome::Appended);
    assert_eq!(with_block, format!("{}{}", mine, prepare_snippet()));
    let (r, rest) = plan_remove(Some(&with_block), "cmt");
    assert_eq!(r, Outcome::Removed);
    assert_eq!(rest, mine);
}

#[test]
fn lint_block_is_not_taken_for_the_prepare_block() {
    // "cmt" followed by a space does not match the "cmt-lint" block
    let (r, rest) = plan_remove(Some(COMMITMSG_FRESH_AFTER), "cmt");
    assert_eq!(r, Outcome::NoOp);
    assert_eq!(rest, COMMITMSG_FRESH_AFTER);
    let (r, rest) = plan_remove(Some(COMMITMSG_FRESH_AFTER), "cmt-lint");
    assert_eq!(r, Outcome::RemovedFile);
    assert_eq!(rest, "");
}

#[test]
fn prepare_block_is_appended_after_a_lint_block_and_removed_alone() {
    // An existing commit-msg hook with the cmt-lint block has no "cmt" block.
    let (both, outcome) = plan_install(Some(COMMITMSG_FRESH_AFTER), &prepare_snippet(), "cmt", true);
    assert_eq!(outcome, Outcome::Appended);
    assert_eq!(both, format!("{}{}", COMMITMSG_FRESH_AFTER, prepare_snippet()));
    // Stripping "cmt" keeps the cmt-lint block.
    assert_eq!(strip_block(&both, "cmt"), COMMITMSG_FRESH_AFTER);
    let (r, rest) = plan_remove(Some(&both), "cmt");
    assert_eq!(r, Outcome::Removed);
    assert_eq!(rest, COMMITMSG_FRESH_AFTER);
    // Installing "cmt" again updates its own block in place.
    let (again, outcome) = plan_install(Some(&both), &prepare_snippet(), "cmt", true);
    assert_eq!(outcome, Outcome::Updated);
    assert_eq!(again, both);
}

#[test]
fn reinstall_on_a_file_without_final_newline_is_stable() {
    let (once, outcome) = plan_install(Some("x"), &prepare_snippet(), "cmt", true);
    assert_eq!(outcome, Outcome::Appended);
    assert_eq!(once, format!("x\n{}", prepare_snippet()));
    let (twice, outcome) = plan_install(Some(&once), &prepare_snippet(), "cmt", true);
    assert_eq!(outcome, Outcome::Updated);
    assert_eq!(twice, once);
    assert_eq!(twice.matches("# >>> cmt ").count(), 1);
    let (r, rest) = plan_remove(Some(&twice), "cmt");
    assert_eq!(r, Outcome::Removed);
    assert_eq!(rest, "x\n");
}

#[test]
fn a_bare_marker_line_opens_a_block() {
    let content = "a\n# >>> m\nb\n# <<< m\nc\n";
    assert_eq!(strip_block(content, "m"), "a\nc\n");
    assert_eq!(plan_remove(Some(content), "m").0, Outcome::Removed);
    // a marker that only begins with the name is another marker
    assert_eq!(strip_block("a\n# >>> mm\nb\n", "m"), "a\n# >>> mm\nb\n");
}

#[test]
fn removal_without_a_file_or_block_does_nothing() {
    assert_eq!(plan_remove(None, "cmt").0, Outcome::NoOp);
    assert_eq!(plan_remove(Some("echo hi\n"), "cmt-lint").0, Outcome::NoOp);
}

#[test]
fn strip_block_drops_marked_lines_only() {
    let content = "a\n# >>> m x\nb\n# <<< m\nc";
    assert_eq!(strip_block(content, "m"), "a\nc\n");
    // an unclosed block runs to the end
    assert_eq!(strip_block("a\n# >>> m\nb\n", "m"), "a\n");
    assert_eq!(strip_block("", "m"), "");
}

#[test]
fn a_block_opened_by_a_bare_marker_reinstalls_stably() {
    let block = "# >>> m\nrun\n# <<< m\n";
    for existing in [None, Some("a\n"), Some("a"), Some("")] {
        let (once, _) = plan_install(existing, block, "m", true);
        let (twice, outcome) = plan_install(Some(&once), block, "m", true);
        assert_eq!(outcome, Outcome::Updated);
        assert_eq!(twice, once);
    }
}
