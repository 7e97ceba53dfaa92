//! The configuration file written by `init`.
use vstd::prelude::*;
use crate::text::{push_str, string_of};

verus! {

/// Where the JSON schema of `.cmt.json` lives.
pub const SCHEMA_URL: &'static str = "https://raw.githubusercontent.com/mihai-ro/cmt/main/schema/cmt.schema.json";

pub open spec fn template_text() -> Seq<char> {
    "{\n  \"$schema\": \""@ + SCHEMA_URL@ + "\",\n  \"customTypes\": [\n    { \"type\": \"wip\", \"emoji\": \"🚧\", \"semver\": \"none\", \"description\": \"Work in progress\" }\n  ],\n  \"scopes\": [],\n  \"rules\": {\n    \"maxHeaderLength\": 72,\n    \"requireScope\": false,\n    \"allowBreakingChanges\": [\"feat\", \"fix\"],\n    \"disallowUpperCaseDescription\": false,\n    \"disallowTrailingPeriod\": false\n  }\n}\n"@
}

/// The starter `.cmt.json`: schema pointer, one example custom type, no
/// scopes and the default rules.
pub fn config_template() -> (s: String)
    ensures
        s@ == template_text(),
{
    let mut s = string_of("{\n  \"$schema\": \"");
    push_str(&mut s, SCHEMA_URL);
    push_str(&mut s, "\",\n  \"customTypes\": [\n    { \"type\": \"wip\", \"emoji\": \"🚧\", \"semver\": \"none\", \"description\": \"Work in progress\" }\n  ],\n  \"scopes\": [],\n  \"rules\": {\n    \"maxHeaderLength\": 72,\n    \"requireScope\": false,\n    \"allowBreakingChanges\": [\"feat\", \"fix\"],\n    \"disallowUpperCaseDescription\": false,\n    \"disallowTrailingPeriod\": false\n  }\n}\n");
    s
}

} // verus!
