use cmt::config::{dump_canonical, load, RawConfig, RawRules, RawType};

fn no_rules() -> RawRules {
    RawRules {
        max_header_length: None,
        require_scope: None,
        disallow_upper_case_description: None,
        disallow_trailing_period: None,
        allow_breaking_changes: None,
    }
}

const EMPTY_RESOLVED: &str = "maxHeaderLength=72\nrequireScope=false\ndisallowUpperCaseDescription=false\ndisallowTrailingPeriod=false\nallowBreakingChanges=feat,fix\nscopes=\ntypes=feat,fix,docs,style,refactor,perf,test,build,ci,chore,revert\n";

const CUSTOM_RESOLVED: &str = "maxHeaderLength=50\nrequireScope=true\ndisallowUpperCaseDescription=false\ndisallowTrailingPeriod=true\nallowBreakingChanges=feat\nscopes=auth,api\ntypes=feat,fix,docs,style,refactor,perf,test,build,ci,chore,revert,wip\n";

#[test]
fn config_fixtures_resolve_canonically() {
    // empty.json: `{}`
    let empty = RawConfig { custom_types: vec![], scopes: vec![], rules: no_rules() };
    assert_eq!(dump_canonical(&load(Some(empty))), EMPTY_RESOLVED, "mismatch for empty.json");
    // custom.json: one custom type, two scopes and four rules
    let custom = RawConfig {
        custom_types: vec![RawType {
            type_: "wip".into(),
            emoji: Some("🚧".into()),
            semver: Some("none".into()),
            description: Some("Work in progress".into()),
        }],
        scopes: vec!["auth".into(), "api".into()],
        rules: RawRules {
            max_header_length: Some(50),
            require_scope: Some(true),
            disallow_upper_case_description: None,
            disallow_trailing_period: Some(true),
            allow_breaking_changes: Some(vec!["feat".into()]),
        },
    };
    assert_eq!(dump_canonical(&load(Some(custom))), CUSTOM_RESOLVED, "mismatch for custom.json");
}

#[test]
fn missing_or_unreadable_file_gives_defaults() {
    assert_eq!(dump_canonical(&load(None)), EMPTY_RESOLVED);
}

#[test]
fn custom_types_get_defaults_and_nameless_ones_are_dropped() {
    let raw = RawConfig {
        custom_types: vec![
            RawType { type_: "".into(), emoji: None, semver: None, description: None },
            RawType { type_: "sec".into(), emoji: None, semver: None, description: None },
        ],
        scopes: vec![],
        rules: RawRules { allow_breaking_changes: Some(vec![]), ..no_rules() },
    };
    let c = load(Some(raw));
    assert_eq!(c.types.len(), 12);
    let t = &c.types[11];
    assert_eq!((t.type_.as_str(), t.emoji.as_str(), t.semver.as_str(), t.description.as_str()), ("sec", "⚙️ ", "none", "Custom type"));
    // an empty breaking-change list falls back to the default
    assert_eq!(c.rules.allow_breaking_changes, vec!["feat", "fix"]);
    assert_eq!(c.types[0].type_, "feat");
}
