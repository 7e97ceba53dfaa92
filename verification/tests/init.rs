use cmt::commands::init::{config_template, SCHEMA_URL};
use cmt::hooks::{plan_install, prepare_snippet, Outcome};

#[test]
fn template_is_valid_json_and_has_schema() {
    let v: serde_json::Value = serde_json::from_str(&config_template()).unwrap();
    assert!(v.get("$schema").is_some());
    assert_eq!(v["rules"]["maxHeaderLength"], 72);
}

#[test]
fn template_points_at_the_schema_and_lists_wip() {
    let v: serde_json::Value = serde_json::from_str(&config_template()).unwrap();
    assert_eq!(v["$schema"], SCHEMA_URL);
    assert_eq!(v["customTypes"][0]["type"], "wip");
    assert_eq!(v["rules"]["allowBreakingChanges"][1], "fix");
    assert_eq!(v["rules"]["requireScope"], false);
}

#[test]
fn init_creates_config_and_hook() {
    // What init writes into a fresh hooks directory, and the config template.
    let (content, outcome) = plan_install(None, &prepare_snippet(), "cmt", true);
    assert_eq!(outcome, Outcome::Created);
    assert!(content.starts_with("#!/usr/bin/env bash\n"));
    let template = config_template();
    let v: serde_json::Value = serde_json::from_str(&template).unwrap();
    assert!(v.get("$schema").is_some());
}

#[test]
fn template_text_is_exact() {
    assert_eq!(config_template(), "{\n  \"$schema\": \"https://raw.githubusercontent.com/mihai-ro/cmt/main/schema/cmt.schema.json\",\n  \"customTypes\": [\n    { \"type\": \"wip\", \"emoji\": \"🚧\", \"semver\": \"none\", \"description\": \"Work in progress\" }\n  ],\n  \"scopes\": [],\n  \"rules\": {\n    \"maxHeaderLength\": 72,\n    \"requireScope\": false,\n    \"allowBreakingChanges\": [\"feat\", \"fix\"],\n    \"disallowUpperCaseDescription\": false,\n    \"disallowTrailingPeriod\": false\n  }\n}\n");
}
