//! Commit types, lint rules and the resolved configuration.
use vstd::prelude::*;
use crate::text::string_of;

verus! {

/// One commit type: its name, emoji, semantic-version impact and description.
#[derive(Debug, Clone, PartialEq, Eq)]
pub struct CommitType {
    pub type_: String,
    pub emoji: String,
    pub semver: String,
    pub description: String,
}

/// The abstract value of a [`CommitType`].
pub struct CommitTypeView {
    pub type_: Seq<char>,
    pub emoji: Seq<char>,
    pub semver: Seq<char>,
    pub description: Seq<char>,
}

impl View for CommitType {
    type V = CommitTypeView;

    open spec fn view(&self) -> CommitTypeView {
        CommitTypeView {
            type_: self.type_@,
            emoji: self.emoji@,
            semver: self.semver@,
            description: self.description@,
        }
    }
}

/// The lint rules of a configuration.
#[derive(Debug, Clone, PartialEq, Eq)]
pub struct Rules {
    pub max_header_length: usize,
    pub require_scope: bool,
    pub disallow_upper_case_description: bool,
    pub disallow_trailing_period: bool,
    pub allow_breaking_changes: Vec<String>,
}

/// The abstract value of [`Rules`].
pub struct RulesView {
    pub max_header_length: nat,
    pub require_scope: bool,
    pub disallow_upper_case_description: bool,
    pub disallow_trailing_period: bool,
    pub allow_breaking_changes: Seq<Seq<char>>,
}

impl View for Rules {
    type V = RulesView;

    open spec fn view(&self) -> RulesView {
        RulesView {
            max_header_length: self.max_header_length as nat,
            require_scope: self.require_scope,
            disallow_upper_case_description: self.disallow_upper_case_description,
            disallow_trailing_period: self.disallow_trailing_period,
            allow_breaking_changes: self.allow_breaking_changes.deep_view(),
        }
    }
}

/// A resolved configuration: the commit types (built-in ones first), the
/// configured scopes and the lint rules.
#[derive(Debug, Clone, PartialEq, Eq)]
pub struct Config {
    pub types: Vec<CommitType>,
    pub scopes: Vec<String>,
    pub rules: Rules,
}

/// The abstract value of a [`Config`].
pub struct ConfigView {
    pub types: Seq<CommitTypeView>,
    pub scopes: Seq<Seq<char>>,
    pub rules: RulesView,
}

pub open spec fn types_view(types: Seq<CommitType>) -> Seq<CommitTypeView> {
    types.map_values(|t: CommitType| t@)
}

impl View for Config {
    type V = ConfigView;

    open spec fn view(&self) -> ConfigView {
        ConfigView { types: types_view(self.types@), scopes: self.scopes.deep_view(), rules: self.rules@ }
    }
}

/// The breaking-change types allowed by default.
pub open spec fn default_allow_breaking() -> Seq<Seq<char>> {
    seq!["feat"@, "fix"@]
}

/// The default lint rules.
pub open spec fn default_rules() -> RulesView {
    RulesView {
        max_header_length: 72,
        require_scope: false,
        disallow_upper_case_description: false,
        disallow_trailing_period: false,
        allow_breaking_changes: default_allow_breaking(),
    }
}

/// The default configuration: the built-in types, no scopes, default rules.
pub open spec fn default_config() -> ConfigView {
    ConfigView { types: builtin_types_view(), scopes: seq![], rules: default_rules() }
}

pub open spec fn type_view(t: &str, e: &str, s: &str, d: &str) -> CommitTypeView {
    CommitTypeView { type_: t@, emoji: e@, semver: s@, description: d@ }
}

/// The eleven built-in commit types, in their fixed order.
pub open spec fn builtin_types_view() -> Seq<CommitTypeView> {
    seq![
        type_view("feat", "✨", "minor", "A new feature"),
        type_view("fix", "🐛", "patch", "A bug fix"),
        type_view("docs", "📚", "none", "Documentation only changes"),
        type_view("style", "💅", "none", "Formatting, missing semi-colons, etc — no logic change"),
        type_view("refactor", "♻️ ", "none", "Code change that neither fixes a bug nor adds a feature"),
        type_view("perf", "⚡", "patch", "A code change that improves performance"),
        type_view("test", "🧪", "none", "Adding or correcting tests"),
        type_view("build", "🏗️ ", "none", "Changes to build system or external dependencies"),
        type_view("ci", "🔧", "none", "Changes to CI/CD configuration files and scripts"),
        type_view("chore", "🔩", "none", "Other changes that don't modify src or test files"),
        type_view("revert", "⏪", "patch", "Reverts a previous commit"),
    ]
}

fn commit_type(t: &str, e: &str, s: &str, d: &str) -> (r: CommitType)
    ensures
        r@ == type_view(t, e, s, d),
{
    CommitType { type_: string_of(t), emoji: string_of(e), semver: string_of(s), description: string_of(d) }
}

/// The built-in commit types, in order.
pub fn builtin_types() -> (r: Vec<CommitType>)
    ensures
        types_view(r@) == builtin_types_view(),
{
    let mut r: Vec<CommitType> = Vec::new();
    r.push(commit_type("feat", "✨", "minor", "A new feature"));
    r.push(commit_type("fix", "🐛", "patch", "A bug fix"));
    r.push(commit_type("docs", "📚", "none", "Documentation only changes"));
    r.push(commit_type("style", "💅", "none", "Formatting, missing semi-colons, etc — no logic change"));
    r.push(commit_type("refactor", "♻️ ", "none", "Code change that neither fixes a bug nor adds a feature"));
    r.push(commit_type("perf", "⚡", "patch", "A code change that improves performance"));
    r.push(commit_type("test", "🧪", "none", "Adding or correcting tests"));
    r.push(commit_type("build", "🏗️ ", "none", "Changes to build system or external dependencies"));
    r.push(commit_type("ci", "🔧", "none", "Changes to CI/CD configuration files and scripts"));
    r.push(commit_type("chore", "🔩", "none", "Other changes that don't modify src or test files"));
    r.push(commit_type("revert", "⏪", "patch", "Reverts a previous commit"));
    assert(types_view(r@) =~= builtin_types_view());
    r
}

/// The default breaking-change allow list.
pub fn default_allow_breaking_vec() -> (r: Vec<String>)
    ensures
        r.deep_view() == default_allow_breaking(),
{
    let mut r: Vec<String> = Vec::new();
    r.push(string_of("feat"));
    r.push(string_of("fix"));
    assert(r.deep_view() =~= default_allow_breaking());
    r
}

impl Default for Rules {
    fn default() -> (r: Self)
        ensures
            r@ == default_rules(),
    {
        Rules {
            max_header_length: 72,
            require_scope: false,
            disallow_upper_case_description: false,
            disallow_trailing_period: false,
            allow_breaking_changes: default_allow_breaking_vec(),
        }
    }
}

impl Default for Config {
    fn default() -> (c: Self)
        ensures
            c@ == default_config(),
    {
        let c = Config { types: builtin_types(), scopes: Vec::new(), rules: Rules::default() };
        assert(c.scopes.deep_view() =~= Seq::<Seq<char>>::empty());
        c
    }
}

} // verus!
