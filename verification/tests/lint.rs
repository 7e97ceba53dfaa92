use cmt::commit::{assemble, Draft};
use cmt::lint::{check, render, LintResult};
use cmt::types::{Config, Rules};
use cmt::ui::Palette;

fn rendered_ok(header: &str) -> String {
    format!("\n  lint  {header}\n  ✔ valid conventional commit\n\n")
}

fn rendered_error(header: &str, e: &str) -> String {
    format!("\n  lint  {header}\n  ✖  {e}\n\n")
}

fn rendered_warning(header: &str, w: &str) -> String {
    format!("\n  lint  {header}\n  ⚑  {w}\n\n  ✔ valid — with 1 suggestion(s)\n\n")
}

#[test]
fn lint_fixtures_match() {
    let cfg = Config::default();
    let p = Palette::plain();
    let long = "feat: this is an extremely long commit header that goes well beyond the seventy two character soft limit";
    let cases: Vec<(&str, &str, String, i32)> = vec![
        ("valid_simple", "feat: add login", rendered_ok("feat: add login"), 0),
        ("valid_scope", "fix(auth): handle null token", rendered_ok("fix(auth): handle null token"), 0),
        (
            "bad_format",
            "added a thing",
            rendered_error("added a thing", "Header must match: type(scope)?: description"),
            1,
        ),
        (
            "unknown_type",
            "wibble: stuff",
            rendered_error(
                "wibble: stuff",
                "Unknown type 'wibble'. Valid: feat,fix,docs,style,refactor,perf,test,build,ci,chore,revert",
            ),
            1,
        ),
        ("empty_desc", "feat: ", rendered_error("feat: ", "Header must match: type(scope)?: description"), 1),
        (
            "upper_desc",
            "feat: Add login",
            rendered_warning("feat: Add login", "Description starts with uppercase — prefer lowercase"),
            0,
        ),
        (
            "trailing_period",
            "feat: add login.",
            rendered_warning("feat: add login.", "Description ends with a period — omit it"),
            0,
        ),
        ("long_header", long, rendered_warning(long, "Header is 104 chars — aim for ≤72"), 0),
        (
            "body_no_blank",
            "feat: x\nbody line",
            rendered_error("feat: x", "Blank line required between header and body"),
            1,
        ),
        ("breaking_marker", "feat!: drop v1 api", rendered_ok("feat!: drop v1 api"), 0),
    ];
    for (name, msg, expected_out, expected_code) in cases {
        let result = check(msg, &cfg);
        let out = render(&result, &p);
        assert_eq!(out, expected_out, "stdout mismatch for {name}");
        assert_eq!(result.exit_code(), expected_code, "exit code mismatch for {name}");
    }
}

#[test]
fn lint_stdin_exit_codes() {
    let cfg = Config::default();
    assert_eq!(check("feat: ok", &cfg).exit_code(), 0);
    assert_eq!(check("nope", &cfg).exit_code(), 1);
}

fn strict() -> Config {
    let mut c = Config::default();
    c.rules = Rules {
        max_header_length: 20,
        require_scope: true,
        disallow_upper_case_description: true,
        disallow_trailing_period: true,
        allow_breaking_changes: vec!["feat".into()],
    };
    c
}

#[test]
fn strict_rules_turn_warnings_into_errors_in_order() {
    let r = check("feat: A very long description.", &strict());
    assert_eq!(r.header, "feat: A very long description.");
    assert_eq!(
        r.errors,
        vec![
            "Description must start with a lowercase letter",
            "Description must not end with a period",
            "Scope is required — e.g. feat(auth): ...",
        ]
    );
    assert_eq!(r.warnings, vec!["Header is 30 chars — aim for ≤20"]);
    assert_eq!(r.exit_code(), 1);
    let out = render(&r, &Palette::plain());
    assert_eq!(
        out,
        "\n  lint  feat: A very long description.\n  ✖  Description must start with a lowercase letter\n  ✖  Description must not end with a period\n  ✖  Scope is required — e.g. feat(auth): ...\n  ⚑  Header is 30 chars — aim for ≤20\n\n"
    );
}

#[test]
fn header_grammar_edge_cases() {
    let cfg = Config::default();
    assert!(check("feat(api: x", &cfg).exit_code() == 1); // unclosed scope
    assert!(check("feat(): x", &cfg).errors.is_empty()); // empty scope is a scope
    assert!(check("feat(a)!: x", &cfg).errors.is_empty());
    assert!(check("feat:x", &cfg).exit_code() == 1);
    assert!(check("", &cfg).exit_code() == 1);
    assert_eq!(check("feat: x\n\nbody", &cfg).errors.len(), 0);
    assert_eq!(check("feat: x\n", &cfg).errors.len(), 0);
    assert_eq!(check("feat: x\r\n\r\nbody", &cfg).header, "feat: x\r");
}

#[test]
fn render_colors_with_the_palette() {
    let r = LintResult { header: "x".into(), errors: vec!["e".into()], warnings: vec![] };
    let p = Palette::colored();
    assert_eq!(
        render(&r, &p),
        "\n  \x1b[1;38;2;86;182;194mlint\x1b[0m  \x1b[38;2;92;99;112mx\x1b[0m\n  \x1b[38;2;224;108;117m✖\x1b[0m  e\n\n"
    );
}

#[test]
fn assembled_messages_pass_lint() {
    let cfg = Config::default();
    let d = Draft {
        type_: "feat".into(),
        scope: "api".into(),
        desc: "add login".into(),
        body: "why\nit matters".into(),
        breaking: true,
        breaking_desc: "tokens change".into(),
        footer: "Closes #1".into(),
    };
    let r = check(&assemble(&d), &cfg);
    assert!(r.errors.is_empty());
    assert_eq!(r.exit_code(), 0);
}

#[test]
fn auto_generated_messages_are_skipped() {
    let cfg = Config::default();
    for msg in [
        "Merge branch 'feature'",
        "Revert \"feat: something\"",
        "fixup! feat: add hello file",
        "squash! feat: add hello file",
        "Merge pull request #3 from a/b\nbody right away",
    ] {
        let r = check(msg, &cfg);
        assert!(r.errors.is_empty(), "errors for {msg:?}");
        assert!(r.warnings.is_empty(), "warnings for {msg:?}");
        assert_eq!(r.exit_code(), 0);
    }
    // only the exact prefixes count
    assert_eq!(check("Merged things", &cfg).exit_code(), 1);
    assert_eq!(check("fixup!: x", &cfg).exit_code(), 1);
    assert_eq!(check("merge branch x", &cfg).exit_code(), 1);
}
