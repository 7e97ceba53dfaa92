use cmt::types::{builtin_types, Config, Rules};

#[test]
fn builtins_have_expected_order_and_count() {
    let t = builtin_types();
    assert_eq!(t.len(), 11);
    assert_eq!(t[0].type_, "feat");
    assert_eq!(t[0].semver, "minor");
    assert_eq!(t.last().unwrap().type_, "revert");
}

#[test]
fn default_rules_match_spec() {
    let r = Rules::default();
    assert_eq!(r.max_header_length, 72);
    assert!(!r.require_scope);
    assert_eq!(r.allow_breaking_changes, vec!["feat", "fix"]);
}

#[test]
fn default_config_has_builtins_and_no_scopes() {
    let c = Config::default();
    let names: Vec<&str> = c.types.iter().map(|t| t.type_.as_str()).collect();
    assert_eq!(
        names,
        vec!["feat", "fix", "docs", "style", "refactor", "perf", "test", "build", "ci", "chore", "revert"]
    );
    assert!(c.scopes.is_empty());
    assert!(!c.rules.disallow_trailing_period);
    assert!(!c.rules.disallow_upper_case_description);
    assert_eq!(c.types[1].emoji, "🐛");
    assert_eq!(c.types[5].semver, "patch");
}

#[test]
fn builtin_types_in_full() {
    let expected: [(&str, &str, &str, &str); 11] = [
        ("feat", "✨", "minor", "A new feature"),
        ("fix", "🐛", "patch", "A bug fix"),
        ("docs", "📚", "none", "Documentation only changes"),
        ("style", "💅", "none", "Formatting, missing semi-colons, etc — no logic change"),
        ("refactor", "♻️ ", "none", "Code change that neither fixes a bug nor adds a feature"),
        ("perf", "⚡", "patch", "A code change that improves performance"),
        ("test", "🧪", "none", "Adding or correcting tests"),
        ("build", "🏗️ ", "none", "Changes to build system or external dependencies"),
        ("ci", "🔧", "none", "Changes to CI/CD configuration files and scripts"),
        ("chore", "🔩", "none", "Other changes that don't modify src or test files"),
        ("revert", "⏪", "patch", "Reverts a previous commit"),
    ];
    let got = builtin_types();
    assert_eq!(got.len(), expected.len());
    for (t, (ty, emoji, semver, desc)) in got.iter().zip(expected.iter()) {
        assert_eq!((t.type_.as_str(), t.emoji.as_str(), t.semver.as_str(), t.description.as_str()), (*ty, *emoji, *semver, *desc));
    }
}
