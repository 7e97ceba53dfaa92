//! Resolving `.cmt.json` over the defaults, and the canonical dump of a
//! resolved configuration.
//!
//! Reading the file and decoding its JSON into [`RawConfig`] happen outside
//! the library; here every field that is missing takes its default.
use vstd::prelude::*;
use crate::lint::{names_of, type_names};
use crate::text::{decimal, decimal_string, join, join_strings, push_owned, push_str, string_of};
use crate::types::{
    builtin_types, builtin_types_view, default_allow_breaking, default_allow_breaking_vec,
    default_config, default_rules, CommitType, CommitTypeView, Config, ConfigView, Rules, RulesView,
};

verus! {

/// One entry of `customTypes`, as written in the file.
pub struct RawType {
    pub type_: String,
    pub emoji: Option<String>,
    pub semver: Option<String>,
    pub description: Option<String>,
}

/// The `rules` object, as written in the file.
pub struct RawRules {
    pub max_header_length: Option<usize>,
    pub require_scope: Option<bool>,
    pub disallow_upper_case_description: Option<bool>,
    pub disallow_trailing_period: Option<bool>,
    pub allow_breaking_changes: Option<Vec<String>>,
}

/// The whole file, as written (absent keys already empty or `None`).
pub struct RawConfig {
    pub custom_types: Vec<RawType>,
    pub scopes: Vec<String>,
    pub rules: RawRules,
}

pub open spec fn opt_view(o: Option<String>, default: Seq<char>) -> Seq<char> {
    match o {
        Some(s) => s@,
        None => default,
    }
}

/// A custom type with its defaults filled in.
pub open spec fn custom_type_view(r: RawType) -> CommitTypeView {
    CommitTypeView {
        type_: r.type_@,
        emoji: opt_view(r.emoji, "⚙️ "@),
        semver: opt_view(r.semver, "none"@),
        description: opt_view(r.description, "Custom type"@),
    }
}

/// The custom types in file order, those without a name left out.
pub open spec fn custom_types_view(raws: Seq<RawType>) -> Seq<CommitTypeView>
    decreases raws.len(),
{
    if raws.len() == 0 {
        seq![]
    } else {
        custom_types_view(raws.drop_last()) + (if raws.last().type_@.len() == 0 {
            seq![]
        } else {
            seq![custom_type_view(raws.last())]
        })
    }
}

/// The rules of a file over the defaults; an empty breaking-change list
/// counts as absent.
pub open spec fn resolved_rules(r: RawRules) -> RulesView {
    RulesView {
        max_header_length: match r.max_header_length {
            Some(n) => n as nat,
            None => 72,
        },
        require_scope: match r.require_scope {
            Some(b) => b,
            None => false,
        },
        disallow_upper_case_description: match r.disallow_upper_case_description {
            Some(b) => b,
            None => false,
        },
        disallow_trailing_period: match r.disallow_trailing_period {
            Some(b) => b,
            None => false,
        },
        allow_breaking_changes: match r.allow_breaking_changes {
            Some(v) => if v@.len() > 0 {
                v.deep_view()
            } else {
                default_allow_breaking()
            },
            None => default_allow_breaking(),
        },
    }
}

/// The configuration a file resolves to: the built-in types followed by the
/// custom ones, the file's scopes, the rules over their defaults. No file (or
/// a file that does not decode) gives the defaults.
pub open spec fn resolved(raw: Option<RawConfig>) -> ConfigView {
    match raw {
        None => default_config(),
        Some(r) => ConfigView {
            types: builtin_types_view() + custom_types_view(r.custom_types@),
            scopes: r.scopes.deep_view(),
            rules: resolved_rules(r.rules),
        },
    }
}

fn or_default(o: &Option<String>, d: &str) -> (s: String)
    ensures
        s@ == opt_view(*o, d@),
{
    match o {
        Some(v) => v.clone(),
        None => string_of(d),
    }
}

fn clone_strings(v: &Vec<String>) -> (r: Vec<String>)
    ensures
        r.deep_view() == v.deep_view(),
{
    let mut r: Vec<String> = Vec::new();
    let mut i: usize = 0;
    while i < v.len()
        invariant
            i <= v@.len(),
            r.deep_view() == v.deep_view().take(i as int),
        decreases v.len() - i,
    {
        push_owned(&mut r, v[i].clone());
        assert(v.deep_view().take(i + 1) =~= v.deep_view().take(i as int).push(v@[i as int]@));
        i += 1;
    }
    assert(v.deep_view().take(v@.len() as int) =~= v.deep_view());
    r
}

/// Resolve the configuration from the decoded file (`None` when there is no
/// file or it does not decode).
pub fn load(raw: Option<RawConfig>) -> (c: Config)
    ensures
        c@ == resolved(raw),
{
    let raw = match raw {
        None => return Config::default(),
        Some(r) => r,
    };
    let mut types = builtin_types();
    let mut i: usize = 0;
    while i < raw.custom_types.len()
        invariant
            i <= raw.custom_types@.len(),
            crate::types::types_view(types@) == builtin_types_view() + custom_types_view(
                raw.custom_types@.take(i as int),
            ),
        decreases raw.custom_types.len() - i,
    {
        let rt = &raw.custom_types[i];
        let ghost before = crate::types::types_view(types@);
        assert(raw.custom_types@.take(i + 1).drop_last() == raw.custom_types@.take(i as int));
        if !rt.type_.as_str().is_empty() {
            let t = CommitType {
                type_: rt.type_.clone(),
                emoji: or_default(&rt.emoji, "⚙️ "),
                semver: or_default(&rt.semver, "none"),
                description: or_default(&rt.description, "Custom type"),
            };
            types.push(t);
            assert(crate::types::types_view(types@) =~= before.push(custom_type_view(*rt)));
        } else {
            proof {
                reveal_strlit("");
            }
        }
        i += 1;
    }
    assert(raw.custom_types@.take(raw.custom_types@.len() as int) == raw.custom_types@);
    let d = Rules::default();
    let allow = match &raw.rules.allow_breaking_changes {
        Some(v) => if v.len() > 0 {
            clone_strings(v)
        } else {
            default_allow_breaking_vec()
        },
        None => default_allow_breaking_vec(),
    };
    let rules = Rules {
        max_header_length: match raw.rules.max_header_length {
            Some(n) => n,
            None => d.max_header_length,
        },
        require_scope: match raw.rules.require_scope {
            Some(b) => b,
            None => d.require_scope,
        },
        disallow_upper_case_description: match raw.rules.disallow_upper_case_description {
            Some(b) => b,
            None => d.disallow_upper_case_description,
        },
        disallow_trailing_period: match raw.rules.disallow_trailing_period {
            Some(b) => b,
            None => d.disallow_trailing_period,
        },
        allow_breaking_changes: allow,
    };
    let scopes = clone_strings(&raw.scopes);
    Config { types, scopes, rules }
}

// ---------------------------------------------------------------------------
// Canonical dump
// ---------------------------------------------------------------------------

pub open spec fn bool_text(b: bool) -> Seq<char> {
    if b {
        "true"@
    } else {
        "false"@
    }
}

/// The canonical text of a resolved configuration, one `key=value` per line.
pub open spec fn canonical(c: ConfigView) -> Seq<char> {
    "maxHeaderLength="@ + decimal(c.rules.max_header_length) + "\nrequireScope="@ + bool_text(
        c.rules.require_scope,
    ) + "\ndisallowUpperCaseDescription="@ + bool_text(c.rules.disallow_upper_case_description)
        + "\ndisallowTrailingPeriod="@ + bool_text(c.rules.disallow_trailing_period)
        + "\nallowBreakingChanges="@ + join(c.rules.allow_breaking_changes, ","@) + "\nscopes="@
        + join(c.scopes, ","@) + "\ntypes="@ + join(type_names(c.types), ","@) + "\n"@
}

fn bool_string(b: bool) -> (s: String)
    ensures
        s@ == bool_text(b),
{
    if b {
        string_of("true")
    } else {
        string_of("false")
    }
}

/// The canonical dump of a resolved configuration.
pub fn dump_canonical(c: &Config) -> (s: String)
    ensures
        s@ == canonical(c@),
{
    let mut s = string_of("maxHeaderLength=");
    let n = decimal_string(c.rules.max_header_length);
    push_str(&mut s, n.as_str());
    push_str(&mut s, "\nrequireScope=");
    let b = bool_string(c.rules.require_scope);
    push_str(&mut s, b.as_str());
    push_str(&mut s, "\ndisallowUpperCaseDescription=");
    let b = bool_string(c.rules.disallow_upper_case_description);
    push_str(&mut s, b.as_str());
    push_str(&mut s, "\ndisallowTrailingPeriod=");
    let b = bool_string(c.rules.disallow_trailing_period);
    push_str(&mut s, b.as_str());
    push_str(&mut s, "\nallowBreakingChanges=");
    let a = join_strings(&c.rules.allow_breaking_changes, ",");
    push_str(&mut s, a.as_str());
    push_str(&mut s, "\nscopes=");
    let sc = join_strings(&c.scopes, ",");
    push_str(&mut s, sc.as_str());
    push_str(&mut s, "\ntypes=");
    let names = names_of(c);
    let t = join_strings(&names, ",");
    push_str(&mut s, t.as_str());
    push_str(&mut s, "\n");
    s
}

// ---------------------------------------------------------------------------
// Laws
// ---------------------------------------------------------------------------

/// A file that sets nothing (`{}`) resolves to the same configuration as no
/// file at all: the defaults.
pub proof fn law_empty_file_is_default(r: RawConfig)
    requires
        r.custom_types@.len() == 0,
        r.scopes@.len() == 0,
        r.rules.max_header_length is None,
        r.rules.require_scope is None,
        r.rules.disallow_upper_case_description is None,
        r.rules.disallow_trailing_period is None,
        r.rules.allow_breaking_changes is None,
    ensures
        resolved(Some(r)) == resolved(None),
        resolved(None) == default_config(),
{
    assert(custom_types_view(r.custom_types@) =~= Seq::<CommitTypeView>::empty());
    assert(builtin_types_view() + custom_types_view(r.custom_types@) =~= builtin_types_view());
    assert(r.scopes.deep_view() =~= Seq::<Seq<char>>::empty());
    assert(resolved_rules(r.rules) == default_rules());
}

/// The built-in types always come first, in their fixed order, whatever the
/// file says; every custom type with a name follows them.
pub proof fn law_builtins_first(raw: Option<RawConfig>)
    ensures
        resolved(raw).types.take(11) == builtin_types_view(),
        resolved(raw).types.len() >= 11,
{
    match raw {
        None => {
            assert(resolved(raw).types.take(11) =~= builtin_types_view());
        },
        Some(r) => {
            assert((builtin_types_view() + custom_types_view(r.custom_types@)).take(11)
                =~= builtin_types_view());
        },
    }
}

/// Every setting present in the file is the resolved setting, and every
/// absent one takes its default (72 characters, no required scope, upper
/// case and trailing periods allowed, breaking changes for `feat` and `fix`;
/// an empty breaking-change list counts as absent); the scopes are the
/// file's.
pub proof fn law_file_settings_win(r: RawConfig)
    ensures
        ({
            let c = resolved(Some(r));
            &&& c.rules.max_header_length == match r.rules.max_header_length {
                Some(n) => n as nat,
                None => 72,
            }
            &&& c.rules.require_scope == match r.rules.require_scope {
                Some(b) => b,
                None => false,
            }
            &&& c.rules.disallow_upper_case_description == match r.rules.disallow_upper_case_description {
                Some(b) => b,
                None => false,
            }
            &&& c.rules.disallow_trailing_period == match r.rules.disallow_trailing_period {
                Some(b) => b,
                None => false,
            }
            &&& c.rules.allow_breaking_changes == match r.rules.allow_breaking_changes {
                Some(v) => if v@.len() > 0 {
                    v.deep_view()
                } else {
                    seq!["feat"@, "fix"@]
                },
                None => seq!["feat"@, "fix"@],
            }
            &&& c.scopes == r.scopes.deep_view()
        }),
{
}

/// Custom types follow the built-in ones in file order, each with its own
/// name and the file's emoji, semver and description (or `⚙️ `, `none` and
/// `Custom type` where the file gives none), when every custom type of the
/// file has a name.
pub proof fn law_custom_types_follow(r: RawConfig)
    requires
        forall|i: int| 0 <= i < r.custom_types@.len() ==> (#[trigger] r.custom_types@[i]).type_@.len() > 0,
    ensures
        ({
            let ts = resolved(Some(r)).types;
            let cs = r.custom_types@;
            &&& ts.len() == 11 + cs.len()
            &&& forall|i: int|
                0 <= i < cs.len() ==> {
                    let t = #[trigger] ts[11 + i];
                    &&& t.type_ == cs[i].type_@
                    &&& t.emoji == match cs[i].emoji {
                        Some(e) => e@,
                        None => "⚙️ "@,
                    }
                    &&& t.semver == match cs[i].semver {
                        Some(v) => v@,
                        None => "none"@,
                    }
                    &&& t.description == match cs[i].description {
                        Some(d) => d@,
                        None => "Custom type"@,
                    }
                }
        }),
{
    lemma_custom_types(r.custom_types@);
}

proof fn lemma_custom_types(cs: Seq<RawType>)
    requires
        forall|i: int| 0 <= i < cs.len() ==> (#[trigger] cs[i]).type_@.len() > 0,
    ensures
        custom_types_view(cs).len() == cs.len(),
        forall|i: int|
            0 <= i < cs.len() ==> #[trigger] custom_types_view(cs)[i] == custom_type_view(cs[i]),
    decreases cs.len(),
{
    if cs.len() > 0 {
        let dl = cs.drop_last();
        assert forall|i: int| 0 <= i < dl.len() implies (#[trigger] dl[i]).type_@.len() > 0 by {
            assert(dl[i] == cs[i]);
        }
        lemma_custom_types(dl);
        assert(cs.last().type_@.len() > 0);
        assert forall|i: int| 0 <= i < cs.len() implies #[trigger] custom_types_view(cs)[i]
            == custom_type_view(cs[i]) by {
            if i < dl.len() {
                assert(cs[i] == dl[i]);
            }
        }
    }
}

} // verus!
