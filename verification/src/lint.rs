//! The commit-message linter: header grammar, the eight rules, the report.
use vstd::prelude::*;
use crate::text::{
    after_first_line, ascii_digit, ascii_lower, ascii_upper, chars_of, decimal, decimal_string,
    first_line, first_line_of, first_of, is_digit, is_lower, is_upper, join, join_strings,
    lemma_first_of, next_newline, push_str, starts_with, str_starts_with, string_from_range,
    string_of,
};
use crate::types::{CommitTypeView, Config, ConfigView};
use crate::ui::Palette;

verus! {

/// The outcome of linting one message.
pub struct LintResult {
    pub header: String,
    pub errors: Vec<String>,
    pub warnings: Vec<String>,
}

impl LintResult {
    /// The process exit code: 1 when there is an error, 0 otherwise
    /// (warnings alone exit 0).
    pub fn exit_code(&self) -> (code: i32)
        ensures
            code == (if self.errors@.len() == 0 {
                0i32
            } else {
                1i32
            }),
    {
        if self.errors.len() == 0 {
            0
        } else {
            1
        }
    }
}

// ---------------------------------------------------------------------------
// Header grammar: type(scope)?!?: description
// ---------------------------------------------------------------------------

/// A character that may follow the first one of a type: `[a-z0-9_-]`.
pub open spec fn is_type_char(c: char) -> bool {
    is_lower(c) || is_digit(c) || c == '_' || c == '-'
}

fn is_valid_type_char(c: char) -> (r: bool)
    ensures
        r == is_type_char(c),
{
    ascii_lower(c) || ascii_digit(c) || c == '_' || c == '-'
}

/// The first index at or after `i` that does not hold a type character.
pub open spec fn type_run(h: Seq<char>, i: nat) -> nat
    decreases h.len() - i,
{
    if i < h.len() && is_type_char(h[i as int]) {
        type_run(h, i + 1)
    } else {
        i
    }
}

/// Where the type of a header ends.
pub open spec fn type_end(h: Seq<char>) -> nat {
    type_run(h, 1)
}

/// After the type: `Some(index after the scope)` when a scope is present and
/// closed, `Some(type_end)` when there is no scope, `None` when the scope is
/// not closed.
pub open spec fn after_scope(h: Seq<char>) -> Option<nat> {
    let t = type_end(h);
    if t < h.len() && h[t as int] == '(' {
        let close = t + 1 + first_of(h.skip(t + 1 as int), ')');
        if close < h.len() {
            Some((close + 1) as nat)
        } else {
            None
        }
    } else {
        Some(t)
    }
}

/// Where `: ` must start: after an optional `!`.
pub open spec fn colon_at(h: Seq<char>, j: nat) -> nat {
    if j < h.len() && h[j as int] == '!' {
        j + 1
    } else {
        j
    }
}

/// The header grammar `type(scope)?!?: description`: the type, whether a
/// scope was given, and the (non-empty) description, or `None`.
pub open spec fn parsed_header(h: Seq<char>) -> Option<(Seq<char>, bool, Seq<char>)> {
    if h.len() == 0 || !is_lower(h[0]) {
        None
    } else {
        match after_scope(h) {
            None => None,
            Some(j) => {
                let k = colon_at(h, j);
                if k + 2 < h.len() && h[k as int] == ':' && h[k + 1 as int] == ' ' {
                    Some((h.take(type_end(h) as int), j != type_end(h), h.skip(k + 2 as int)))
                } else {
                    None
                }
            },
        }
    }
}

pub proof fn lemma_type_run_bounds(h: Seq<char>, i: nat)
    requires
        i <= h.len(),
    ensures
        i <= type_run(h, i) <= h.len(),
    decreases h.len() - i,
{
    if i < h.len() && is_type_char(h[i as int]) {
        lemma_type_run_bounds(h, i + 1);
    }
}

/// Parse `type(scope)?!?: desc`, giving the type, whether there is a scope,
/// and the description.
fn parse_header(header: &str) -> (r: Option<(String, bool, String)>)
    ensures
        match r {
            None => parsed_header(header@) is None,
            Some((t, s, d)) => parsed_header(header@) == Some((t@, s, d@)),
        },
{
    let v = chars_of(header);
    let ghost h = v@;
    if v.len() == 0 || !ascii_lower(v[0]) {
        return None;
    }
    let mut i: usize = 1;
    while i < v.len() && is_valid_type_char(v[i])
        invariant
            1 <= i <= v@.len(),
            type_run(h, 1) == type_run(h, i as nat),
            h == v@,
        decreases v.len() - i,
    {
        i += 1;
    }
    let t = i;
    assert(type_end(h) == t);
    let ty = string_from_range(&v, 0, t);
    let mut has_scope = false;
    if i < v.len() && v[i] == '(' {
        has_scope = true;
        i += 1;
        while i < v.len() && v[i] != ')'
            invariant
                t + 1 <= i <= v@.len(),
                forall|j: int| t + 1 <= j < i ==> v@[j] != ')',
                h == v@,
            decreases v.len() - i,
        {
            i += 1;
        }
        proof {
            lemma_first_of(h.skip(t + 1), ')', i - t - 1);
        }
        if i >= v.len() {
            return None;
        }
        i += 1;
    }
    assert(after_scope(h) == Some(i as nat));
    if i < v.len() && v[i] == '!' {
        i += 1;
    }
    if i >= v.len() || v[i] != ':' {
        return None;
    }
    i += 1;
    if i >= v.len() || v[i] != ' ' {
        return None;
    }
    i += 1;
    if i == v.len() {
        return None;
    }
    let desc = string_from_range(&v, i, v.len());
    assert(v@.subrange(i as int, v@.len() as int) == h.skip(i as int));
    assert(v@.subrange(0, t as int) == h.take(t as int));
    Some((ty, has_scope, desc))
}

// ---------------------------------------------------------------------------
// The rules
// ---------------------------------------------------------------------------

pub open spec fn type_names(types: Seq<CommitTypeView>) -> Seq<Seq<char>> {
    types.map_values(|t: CommitTypeView| t.type_)
}

/// `ty` is one of the configured types.
pub open spec fn type_known(types: Seq<CommitTypeView>, ty: Seq<char>) -> bool {
    exists|i: int| 0 <= i < types.len() && types[i].type_ == ty
}

pub open spec fn starts_upper(d: Seq<char>) -> bool {
    d.len() > 0 && is_upper(d[0])
}

pub open spec fn ends_with_period(d: Seq<char>) -> bool {
    d.len() > 0 && d.last() == '.'
}

/// The second line of the message is not empty (rule: blank line between
/// header and body).
pub open spec fn body_without_blank(msg: Seq<char>) -> bool {
    match after_first_line(msg) {
        Some(rest) => first_line(rest).len() > 0,
        None => false,
    }
}

pub open spec fn unknown_type_message(ty: Seq<char>, types: Seq<CommitTypeView>) -> Seq<char> {
    "Unknown type '"@ + ty + "'. Valid: "@ + join(type_names(types), ","@)
}

pub open spec fn long_header_message(len: nat, max: nat) -> Seq<char> {
    "Header is "@ + decimal(len) + " chars — aim for ≤"@ + decimal(max)
}

pub open spec fn opt(b: bool, m: Seq<char>) -> Seq<Seq<char>> {
    if b {
        seq![m]
    } else {
        seq![]
    }
}

/// The errors found in a header line, in report order.
pub open spec fn header_errors(header: Seq<char>, cfg: ConfigView) -> Seq<Seq<char>> {
    match parsed_header(header) {
        None => seq!["Header must match: type(scope)?: description"@],
        Some((ty, has_scope, desc)) => opt(
            !type_known(cfg.types, ty),
            unknown_type_message(ty, cfg.types),
        ) + opt(desc.len() == 0, "Description must not be empty"@) + opt(
            starts_upper(desc) && cfg.rules.disallow_upper_case_description,
            "Description must start with a lowercase letter"@,
        ) + opt(
            ends_with_period(desc) && cfg.rules.disallow_trailing_period,
            "Description must not end with a period"@,
        ) + opt(
            cfg.rules.require_scope && !has_scope,
            "Scope is required — e.g. feat(auth): ..."@,
        ),
    }
}

/// A header that git or a fixup workflow wrote: a merge, a revert, or a
/// `fixup!` / `squash!` commit. Such messages are let through unlinted.
pub open spec fn auto_generated(header: Seq<char>) -> bool {
    ||| starts_with(header, "Merge "@)
    ||| starts_with(header, "Revert "@)
    ||| starts_with(header, "fixup! "@)
    ||| starts_with(header, "squash! "@)
}

/// The errors of a message under a configuration, in report order: those
/// of its header, then the missing blank line after the header; none for an
/// auto-generated message.
pub open spec fn lint_errors(msg: Seq<char>, cfg: ConfigView) -> Seq<Seq<char>> {
    if auto_generated(first_line(msg)) {
        seq![]
    } else {
        header_errors(first_line(msg), cfg) + opt(
            body_without_blank(msg),
            "Blank line required between header and body"@,
        )
    }
}

/// The warnings of a message under a configuration, in report order; none
/// for an auto-generated message.
pub open spec fn lint_warnings(msg: Seq<char>, cfg: ConfigView) -> Seq<Seq<char>> {
    if auto_generated(first_line(msg)) {
        seq![]
    } else {
        header_warnings(first_line(msg), cfg)
    }
}

/// The warnings found in a header line, in report order.
pub open spec fn header_warnings(header: Seq<char>, cfg: ConfigView) -> Seq<Seq<char>> {
    match parsed_header(header) {
        None => seq![],
        Some((ty, has_scope, desc)) => opt(
            starts_upper(desc) && !cfg.rules.disallow_upper_case_description,
            "Description starts with uppercase — prefer lowercase"@,
        ) + opt(
            ends_with_period(desc) && !cfg.rules.disallow_trailing_period,
            "Description ends with a period — omit it"@,
        ) + opt(
            header.len() > cfg.rules.max_header_length,
            long_header_message(header.len(), cfg.rules.max_header_length),
        ),
    }
}

fn push_msg(v: &mut Vec<String>, m: &str)
    ensures
        final(v).deep_view() == old(v).deep_view().push(m@),
{
    let ghost before = v.deep_view();
    v.push(string_of(m));
    assert(v.deep_view() =~= before.push(m@));
}

fn push_string(v: &mut Vec<String>, m: String)
    ensures
        final(v).deep_view() == old(v).deep_view().push(m@),
{
    let ghost before = v.deep_view();
    v.push(m);
    assert(v.deep_view() =~= before.push(m@));
}

/// Whether `ty` names one of the configured types.
fn find_type(cfg: &Config, ty: &String) -> (r: bool)
    ensures
        r == type_known(cfg@.types, ty@),
{
    let mut i: usize = 0;
    while i < cfg.types.len()
        invariant
            i <= cfg.types@.len(),
            forall|j: int| 0 <= j < i ==> cfg.types@[j].type_@ != ty@,
        decreases cfg.types.len() - i,
    {
        if cfg.types[i].type_ == *ty {
            assert(cfg@.types[i as int].type_ == ty@);
            return true;
        }
        i += 1;
    }
    false
}

/// The names of the configured types.
pub(crate) fn names_of(cfg: &Config) -> (r: Vec<String>)
    ensures
        r.deep_view() == type_names(cfg@.types),
{
    let mut r: Vec<String> = Vec::new();
    let mut i: usize = 0;
    while i < cfg.types.len()
        invariant
            i <= cfg.types@.len(),
            r.deep_view() == type_names(cfg@.types).take(i as int),
        decreases cfg.types.len() - i,
    {
        push_string(&mut r, cfg.types[i].type_.clone());
        assert(type_names(cfg@.types).take(i + 1) == type_names(cfg@.types).take(i as int).push(
            cfg@.types[i as int].type_,
        ));
        i += 1;
    }
    assert(type_names(cfg@.types).take(cfg.types@.len() as int) == type_names(cfg@.types));
    r
}

/// Whether the description starts with an uppercase ASCII letter.
fn desc_starts_upper(d: &Vec<char>) -> (r: bool)
    ensures
        r == starts_upper(d@),
{
    d.len() > 0 && ascii_upper(d[0])
}

/// Whether the line after the header is non-empty.
fn second_line_nonempty(m: &Vec<char>) -> (r: bool)
    ensures
        r == body_without_blank(m@),
{
    let k = next_newline(m, 0);
    proof {
        lemma_first_of(m@, '\n', k as int);
    }
    if k == m.len() {
        return false;
    }
    let k2 = next_newline(m, k + 1);
    proof {
        let rest = m@.skip(k + 1);
        lemma_first_of(rest, '\n', k2 - k - 1);
    }
    k2 > k + 1
}

fn unknown_type_error(ty: &String, cfg: &Config) -> (m: String)
    ensures
        m@ == unknown_type_message(ty@, cfg@.types),
{
    let names = names_of(cfg);
    let mut m = string_of("Unknown type '");
    push_str(&mut m, ty.as_str());
    push_str(&mut m, "'. Valid: ");
    let joined = join_strings(&names, ",");
    push_str(&mut m, joined.as_str());
    m
}

fn long_header_warning(hlen: usize, max: usize) -> (m: String)
    ensures
        m@ == long_header_message(hlen as nat, max as nat),
{
    let mut m = string_of("Header is ");
    let n = decimal_string(hlen);
    push_str(&mut m, n.as_str());
    push_str(&mut m, " chars — aim for ≤");
    let mx = decimal_string(max);
    push_str(&mut m, mx.as_str());
    m
}

/// The errors and warnings of a header line.
fn check_header(header: &String, cfg: &Config) -> (r: (Vec<String>, Vec<String>))
    ensures
        r.0.deep_view() == header_errors(header@, cfg@),
        r.1.deep_view() == header_warnings(header@, cfg@),
{
    let mut errors: Vec<String> = Vec::new();
    let mut warnings: Vec<String> = Vec::new();
    match parse_header(header.as_str()) {
        None => {
            push_msg(&mut errors, "Header must match: type(scope)?: description");
        },
        Some((ty, has_scope, desc)) => {
            let d = chars_of(desc.as_str());
            if !find_type(cfg, &ty) {
                push_string(&mut errors, unknown_type_error(&ty, cfg));
            }
            if d.len() == 0 {
                push_msg(&mut errors, "Description must not be empty");
            }
            if desc_starts_upper(&d) {
                if cfg.rules.disallow_upper_case_description {
                    push_msg(&mut errors, "Description must start with a lowercase letter");
                } else {
                    push_msg(&mut warnings, "Description starts with uppercase — prefer lowercase");
                }
            }
            if d.len() > 0 && d[d.len() - 1] == '.' {
                if cfg.rules.disallow_trailing_period {
                    push_msg(&mut errors, "Description must not end with a period");
                } else {
                    push_msg(&mut warnings, "Description ends with a period — omit it");
                }
            }
            let hlen = chars_of(header.as_str()).len();
            if hlen > cfg.rules.max_header_length {
                push_string(&mut warnings, long_header_warning(hlen, cfg.rules.max_header_length));
            }
            if cfg.rules.require_scope && !has_scope {
                push_msg(&mut errors, "Scope is required — e.g. feat(auth): ...");
            }
        },
    }
    (errors, warnings)
}

/// Lint a commit message against a configuration (an auto-generated
/// message, see [`auto_generated`], has no errors or warnings).
pub fn check(msg: &str, cfg: &Config) -> (r: LintResult)
    ensures
        r.header@ == first_line(msg@),
        r.errors.deep_view() == lint_errors(msg@, cfg@),
        r.warnings.deep_view() == lint_warnings(msg@, cfg@),
{
    let header = first_line_of(msg);
    let h = header.as_str();
    if str_starts_with(h, "Merge ") || str_starts_with(h, "Revert ") || str_starts_with(h, "fixup! ")
        || str_starts_with(h, "squash! ") {
        let errors: Vec<String> = Vec::new();
        let warnings: Vec<String> = Vec::new();
        assert(errors.deep_view() =~= Seq::<Seq<char>>::empty());
        assert(warnings.deep_view() =~= Seq::<Seq<char>>::empty());
        return LintResult { header, errors, warnings };
    }
    let (mut errors, warnings) = check_header(&header, cfg);
    let m = chars_of(msg);
    if second_line_nonempty(&m) {
        push_msg(&mut errors, "Blank line required between header and body");
    }
    LintResult { header, errors, warnings }
}

// ---------------------------------------------------------------------------
// The report
// ---------------------------------------------------------------------------

pub open spec fn error_line(e: Seq<char>, p: &Palette) -> Seq<char> {
    "  "@ + p.red@ + "✖"@ + p.reset@ + "  "@ + e + "\n"@
}

pub open spec fn warning_line(w: Seq<char>, p: &Palette) -> Seq<char> {
    "  "@ + p.yellow@ + "⚑"@ + p.reset@ + "  "@ + p.yellow@ + w + p.reset@ + "\n"@
}

pub open spec fn error_lines(es: Seq<Seq<char>>, p: &Palette) -> Seq<char>
    decreases es.len(),
{
    if es.len() == 0 {
        seq![]
    } else {
        error_lines(es.drop_last(), p) + error_line(es.last(), p)
    }
}

pub open spec fn warning_lines(ws: Seq<Seq<char>>, p: &Palette) -> Seq<char>
    decreases ws.len(),
{
    if ws.len() == 0 {
        seq![]
    } else {
        warning_lines(ws.drop_last(), p) + warning_line(ws.last(), p)
    }
}

/// The closing line of the report.
pub open spec fn summary(errors: nat, warnings: nat, p: &Palette) -> Seq<char> {
    if errors == 0 && warnings == 0 {
        "  "@ + p.green@ + "✔"@ + p.reset@ + " valid conventional commit\n"@
    } else if errors == 0 {
        "\n  "@ + p.green@ + "✔"@ + p.reset@ + " valid — with "@ + decimal(warnings)
            + " suggestion(s)\n"@
    } else {
        seq![]
    }
}

/// The text the `lint` command prints for a result.
pub open spec fn report(
    header: Seq<char>,
    errors: Seq<Seq<char>>,
    warnings: Seq<Seq<char>>,
    p: &Palette,
) -> Seq<char> {
    "\n  "@ + p.accent_bold@ + "lint"@ + p.reset@ + "  "@ + p.muted@ + header + p.reset@ + "\n"@
        + error_lines(errors, p) + warning_lines(warnings, p) + summary(
        errors.len(),
        warnings.len(),
        p,
    ) + "\n"@
}

/// Render a lint result as the `lint` command prints it.
pub fn render(r: &LintResult, p: &Palette) -> (out: String)
    ensures
        out@ == report(r.header@, r.errors.deep_view(), r.warnings.deep_view(), p),
{
    let mut out = string_of("\n  ");
    push_str(&mut out, p.accent_bold);
    push_str(&mut out, "lint");
    push_str(&mut out, p.reset);
    push_str(&mut out, "  ");
    push_str(&mut out, p.muted);
    push_str(&mut out, r.header.as_str());
    push_str(&mut out, p.reset);
    push_str(&mut out, "\n");
    let ghost head = out@;
    let mut i: usize = 0;
    while i < r.errors.len()
        invariant
            i <= r.errors@.len(),
            out@ == head + error_lines(r.errors.deep_view().take(i as int), p),
        decreases r.errors.len() - i,
    {
        push_str(&mut out, "  ");
        push_str(&mut out, p.red);
        push_str(&mut out, "✖");
        push_str(&mut out, p.reset);
        push_str(&mut out, "  ");
        push_str(&mut out, r.errors[i].as_str());
        push_str(&mut out, "\n");
        assert(r.errors.deep_view().take(i + 1).drop_last() == r.errors.deep_view().take(i as int));
        i += 1;
    }
    assert(r.errors.deep_view().take(r.errors@.len() as int) == r.errors.deep_view());
    let ghost mid = out@;
    let mut j: usize = 0;
    while j < r.warnings.len()
        invariant
            j <= r.warnings@.len(),
            out@ == mid + warning_lines(r.warnings.deep_view().take(j as int), p),
        decreases r.warnings.len() - j,
    {
        push_str(&mut out, "  ");
        push_str(&mut out, p.yellow);
        push_str(&mut out, "⚑");
        push_str(&mut out, p.reset);
        push_str(&mut out, "  ");
        push_str(&mut out, p.yellow);
        push_str(&mut out, r.warnings[j].as_str());
        push_str(&mut out, p.reset);
        push_str(&mut out, "\n");
        assert(r.warnings.deep_view().take(j + 1).drop_last() == r.warnings.deep_view().take(
            j as int,
        ));
        j += 1;
    }
    assert(r.warnings.deep_view().take(r.warnings@.len() as int) == r.warnings.deep_view());
    if r.errors.len() == 0 && r.warnings.len() == 0 {
        push_str(&mut out, "  ");
        push_str(&mut out, p.green);
        push_str(&mut out, "✔");
        push_str(&mut out, p.reset);
        push_str(&mut out, " valid conventional commit\n");
    } else if r.errors.len() == 0 {
        push_str(&mut out, "\n  ");
        push_str(&mut out, p.green);
        push_str(&mut out, "✔");
        push_str(&mut out, p.reset);
        push_str(&mut out, " valid — with ");
        let n = decimal_string(r.warnings.len());
        push_str(&mut out, n.as_str());
        push_str(&mut out, " suggestion(s)\n");
    }
    push_str(&mut out, "\n");
    out
}

// ---------------------------------------------------------------------------
// Laws of the linter
// ---------------------------------------------------------------------------

/// The long-header warning is about the whole header line: for a header the
/// grammar accepts, the warnings hold `Header is N chars — aim for ≤M`, with
/// N the number of characters of the first line and M the configured limit,
/// exactly when N exceeds M, however the line splits into type, scope and
/// description.
pub proof fn law_long_header_warning(msg: Seq<char>, cfg: ConfigView)
    requires
        !auto_generated(first_line(msg)),
        parsed_header(first_line(msg)) is Some,
    ensures
        lint_warnings(msg, cfg).contains(
            "Header is "@ + decimal(first_line(msg).len()) + " chars — aim for ≤"@ + decimal(
                cfg.rules.max_header_length,
            ),
        ) <==> first_line(msg).len() > cfg.rules.max_header_length,
{
    reveal_strlit("Header is ");
    reveal_strlit("Description starts with uppercase — prefer lowercase");
    reveal_strlit("Description ends with a period — omit it");
    let h = first_line(msg);
    let n = h.len();
    let max = cfg.rules.max_header_length;
    let big = "Header is "@ + decimal(n) + " chars — aim for ≤"@ + decimal(max);
    assert(big[0] == 'H');
    let up = "Description starts with uppercase — prefer lowercase"@;
    let per = "Description ends with a period — omit it"@;
    assert(up[0] == 'D' && per[0] == 'D');
    let ws = lint_warnings(msg, cfg);
    let (ty, hs, desc) = parsed_header(h).unwrap();
    let a = opt(starts_upper(desc) && !cfg.rules.disallow_upper_case_description, up);
    let b = opt(ends_with_period(desc) && !cfg.rules.disallow_trailing_period, per);
    let c = opt(n > max, long_header_message(n, max));
    assert(ws == a + b + c);
    if n > max {
        assert(c == seq![big]);
        assert(ws[(a.len() + b.len()) as int] == big);
    } else {
        assert(c.len() == 0);
        assert forall|k: int| 0 <= k < ws.len() implies ws[k] != big by {
            if k < a.len() {
                assert(ws[k] == up);
            } else {
                assert(ws[k] == per);
            }
        }
    }
}

/// No item of `s` is `m`.
spec fn free(s: Seq<Seq<char>>, m: Seq<char>) -> bool {
    forall|k: int| 0 <= k < s.len() ==> s[k] != m
}

proof fn lemma_free_opt(b: bool, x: Seq<char>, m: Seq<char>)
    requires
        x != m,
    ensures
        free(opt(b, x), m),
{
}

proof fn lemma_free_concat(a: Seq<Seq<char>>, b: Seq<Seq<char>>, m: Seq<char>)
    requires
        free(a, m),
        free(b, m),
    ensures
        free(a + b, m),
{
    assert forall|k: int| 0 <= k < (a + b).len() implies (a + b)[k] != m by {
        if k >= a.len() {
            assert((a + b)[k] == b[k - a.len()]);
        }
    }
}

/// A message that can only come from its own slot is there exactly when the
/// slot is on.
proof fn lemma_slot(pre: Seq<Seq<char>>, b: bool, m: Seq<char>, post: Seq<Seq<char>>)
    requires
        free(pre, m),
        free(post, m),
    ensures
        (pre + opt(b, m) + post).contains(m) <==> b,
{
    let all = pre + opt(b, m) + post;
    if b {
        assert(all[pre.len() as int] == m);
    } else {
        assert(opt(b, m).len() == 0);
        assert(pre + opt(b, m) =~= pre);
        lemma_free_concat(pre, post, m);
    }
}

/// The messages of the rules, told apart by one character each.
proof fn lemma_rule_messages(ty: Seq<char>, types: Seq<CommitTypeView>, len: nat, max: nat)
    ensures
        ({
            let cu = "Description must start with a lowercase letter"@;
            let wu = "Description starts with uppercase — prefer lowercase"@;
            let cp = "Description must not end with a period"@;
            let wp = "Description ends with a period — omit it"@;
            let sc = "Scope is required — e.g. feat(auth): ..."@;
            let bl = "Blank line required between header and body"@;
            let em = "Description must not be empty"@;
            let un = unknown_type_message(ty, types);
            let lh = long_header_message(len, max);
            &&& un != cu && un != cp && un != sc && un != bl && em != cu && em != cp
            &&& em != sc && em != bl && cu != cp && cu != sc && cu != bl && cp != sc
            &&& cp != bl && sc != bl && wu != wp && lh != wu && lh != wp
        }),
{
    reveal_strlit("Description must start with a lowercase letter");
    reveal_strlit("Description starts with uppercase — prefer lowercase");
    reveal_strlit("Description must not end with a period");
    reveal_strlit("Description ends with a period — omit it");
    reveal_strlit("Scope is required — e.g. feat(auth): ...");
    reveal_strlit("Blank line required between header and body");
    reveal_strlit("Unknown type '");
    reveal_strlit("Description must not be empty");
    reveal_strlit("Header is ");
    let cu = "Description must start with a lowercase letter"@;
    let wu = "Description starts with uppercase — prefer lowercase"@;
    let cp = "Description must not end with a period"@;
    let wp = "Description ends with a period — omit it"@;
    let sc = "Scope is required — e.g. feat(auth): ..."@;
    let bl = "Blank line required between header and body"@;
    let em = "Description must not be empty"@;
    let un = unknown_type_message(ty, types);
    let lh = long_header_message(len, max);
    assert(un[0] == 'U' && lh[0] == 'H');
    assert(cu[0] == 'D' && cu[17] == 's' && cp[0] == 'D' && cp[17] == 'n' && cp[21] == 'e');
    assert(em[0] == 'D' && em[17] == 'n' && em[21] == 'b');
    assert(wu[0] == 'D' && wu[12] == 's' && wp[0] == 'D' && wp[12] == 'e');
    assert(sc[0] == 'S' && bl[0] == 'B');
}

/// The rules of a header the grammar accepts, with `d` its description:
/// - an upper-case first letter of `d` is an error when the rules forbid it
///   and a warning otherwise;
/// - a final period of `d` is an error when the rules forbid it and a
///   warning otherwise;
/// - a missing scope is an error exactly when the rules require one;
/// - a message without errors has a configured type;
/// - a non-empty second line is an error.
pub proof fn law_lint_rules(msg: Seq<char>, cfg: ConfigView)
    requires
        !auto_generated(first_line(msg)),
        parsed_header(first_line(msg)) is Some,
    ensures
        ({
            let (ty, has_scope, d) = parsed_header(first_line(msg)).unwrap();
            let es = lint_errors(msg, cfg);
            let ws = lint_warnings(msg, cfg);
            let upper = d.len() > 0 && 'A' <= d[0] <= 'Z';
            let period = d.len() > 0 && d[d.len() - 1] == '.';
            &&& es.contains("Description must start with a lowercase letter"@) <==> (upper
                && cfg.rules.disallow_upper_case_description)
            &&& ws.contains("Description starts with uppercase — prefer lowercase"@) <==> (upper
                && !cfg.rules.disallow_upper_case_description)
            &&& es.contains("Description must not end with a period"@) <==> (period
                && cfg.rules.disallow_trailing_period)
            &&& ws.contains("Description ends with a period — omit it"@) <==> (period
                && !cfg.rules.disallow_trailing_period)
            &&& es.contains("Scope is required — e.g. feat(auth): ..."@) <==> (
            cfg.rules.require_scope && !has_scope)
            &&& es.len() == 0 ==> (exists|i: int|
                0 <= i < cfg.types.len() && #[trigger] cfg.types[i].type_ == ty)
            &&& es.contains("Blank line required between header and body"@) <==> (
            match after_first_line(msg) {
                Some(rest) => first_line(rest).len() > 0,
                None => false,
            })
        }),
{
    let h = first_line(msg);
    let (ty, has_scope, d) = parsed_header(h).unwrap();
    lemma_rule_messages(ty, cfg.types, h.len(), cfg.rules.max_header_length);
    let cu = "Description must start with a lowercase letter"@;
    let wu = "Description starts with uppercase — prefer lowercase"@;
    let cp = "Description must not end with a period"@;
    let wp = "Description ends with a period — omit it"@;
    let sc = "Scope is required — e.g. feat(auth): ..."@;
    let bl = "Blank line required between header and body"@;
    let em = "Description must not be empty"@;
    let un = unknown_type_message(ty, cfg.types);
    let lh = long_header_message(h.len(), cfg.rules.max_header_length);
    let a1 = opt(!type_known(cfg.types, ty), un);
    let a2 = opt(d.len() == 0, em);
    let a3 = opt(starts_upper(d) && cfg.rules.disallow_upper_case_description, cu);
    let a4 = opt(ends_with_period(d) && cfg.rules.disallow_trailing_period, cp);
    let a5 = opt(cfg.rules.require_scope && !has_scope, sc);
    let a6 = opt(body_without_blank(msg), bl);
    assert(lint_errors(msg, cfg) == a1 + a2 + a3 + a4 + a5 + a6);
    let b1 = opt(starts_upper(d) && !cfg.rules.disallow_upper_case_description, wu);
    let b2 = opt(ends_with_period(d) && !cfg.rules.disallow_trailing_period, wp);
    let b3 = opt(h.len() > cfg.rules.max_header_length, lh);
    assert(lint_warnings(msg, cfg) == b1 + b2 + b3);
    // upper case: error slot
    lemma_free_opt(!type_known(cfg.types, ty), un, cu);
    lemma_free_opt(d.len() == 0, em, cu);
    lemma_free_concat(a1, a2, cu);
    lemma_free_opt(ends_with_period(d) && cfg.rules.disallow_trailing_period, cp, cu);
    lemma_free_opt(cfg.rules.require_scope && !has_scope, sc, cu);
    lemma_free_opt(body_without_blank(msg), bl, cu);
    lemma_free_concat(a4, a5, cu);
    lemma_free_concat(a4 + a5, a6, cu);
    lemma_slot(a1 + a2, starts_upper(d) && cfg.rules.disallow_upper_case_description, cu, a4 + a5 + a6);
    assert(a1 + a2 + a3 + a4 + a5 + a6 =~= (a1 + a2) + a3 + (a4 + a5 + a6));
    // period: error slot
    lemma_free_opt(!type_known(cfg.types, ty), un, cp);
    lemma_free_opt(d.len() == 0, em, cp);
    lemma_free_opt(starts_upper(d) && cfg.rules.disallow_upper_case_description, cu, cp);
    lemma_free_concat(a1, a2, cp);
    lemma_free_concat(a1 + a2, a3, cp);
    lemma_free_opt(cfg.rules.require_scope && !has_scope, sc, cp);
    lemma_free_opt(body_without_blank(msg), bl, cp);
    lemma_free_concat(a5, a6, cp);
    lemma_slot(a1 + a2 + a3, ends_with_period(d) && cfg.rules.disallow_trailing_period, cp, a5 + a6);
    assert(a1 + a2 + a3 + a4 + a5 + a6 =~= (a1 + a2 + a3) + a4 + (a5 + a6));
    // scope: error slot
    lemma_free_opt(!type_known(cfg.types, ty), un, sc);
    lemma_free_opt(d.len() == 0, em, sc);
    lemma_free_opt(starts_upper(d) && cfg.rules.disallow_upper_case_description, cu, sc);
    lemma_free_opt(ends_with_period(d) && cfg.rules.disallow_trailing_period, cp, sc);
    lemma_free_concat(a1, a2, sc);
    lemma_free_concat(a1 + a2, a3, sc);
    lemma_free_concat(a1 + a2 + a3, a4, sc);
    lemma_free_opt(body_without_blank(msg), bl, sc);
    lemma_slot(a1 + a2 + a3 + a4, cfg.rules.require_scope && !has_scope, sc, a6);
    // blank line: error slot
    lemma_free_opt(!type_known(cfg.types, ty), un, bl);
    lemma_free_opt(d.len() == 0, em, bl);
    lemma_free_opt(starts_upper(d) && cfg.rules.disallow_upper_case_description, cu, bl);
    lemma_free_opt(ends_with_period(d) && cfg.rules.disallow_trailing_period, cp, bl);
    lemma_free_opt(cfg.rules.require_scope && !has_scope, sc, bl);
    lemma_free_concat(a1, a2, bl);
    lemma_free_concat(a1 + a2, a3, bl);
    lemma_free_concat(a1 + a2 + a3, a4, bl);
    lemma_free_concat(a1 + a2 + a3 + a4, a5, bl);
    lemma_slot(a1 + a2 + a3 + a4 + a5, body_without_blank(msg), bl, Seq::<Seq<char>>::empty());
    assert(a1 + a2 + a3 + a4 + a5 + a6 + Seq::<Seq<char>>::empty() =~= a1 + a2 + a3 + a4 + a5 + a6);
    // warnings
    lemma_free_opt(ends_with_period(d) && !cfg.rules.disallow_trailing_period, wp, wu);
    lemma_free_opt(h.len() > cfg.rules.max_header_length, lh, wu);
    lemma_free_concat(b2, b3, wu);
    lemma_slot(Seq::<Seq<char>>::empty(), starts_upper(d) && !cfg.rules.disallow_upper_case_description, wu, b2 + b3);
    assert(Seq::<Seq<char>>::empty() + b1 + (b2 + b3) =~= b1 + b2 + b3);
    lemma_free_opt(starts_upper(d) && !cfg.rules.disallow_upper_case_description, wu, wp);
    lemma_free_opt(h.len() > cfg.rules.max_header_length, lh, wp);
    lemma_slot(b1, ends_with_period(d) && !cfg.rules.disallow_trailing_period, wp, b3);
    // known type
    if lint_errors(msg, cfg).len() == 0 {
        assert(a1.len() == 0);
    }
}

} // verus!
