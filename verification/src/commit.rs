//! The commit builder: message assembly and the decisions of the wizard.
use vstd::prelude::*;
use crate::text::{
    chars_of, eq_ignore_ascii_case, push_str, str_eq, str_eq_ignore_ascii_case, string_of,
    after_first_line, first_line, is_lower, lemma_first_of,
};
use crate::lint::{
    after_scope, body_without_blank, colon_at, ends_with_period, header_errors, is_type_char,
    lint_errors, parsed_header, starts_upper, type_end, type_known, type_run,
};
use crate::types::{CommitType, Config, CommitTypeView, ConfigView};
use crate::ui::Palette;

verus! {

/// What the wizard collected: the pieces of a conventional commit message.
pub struct Draft {
    pub type_: String,
    pub scope: String,
    pub desc: String,
    pub body: String,
    pub breaking: bool,
    pub breaking_desc: String,
    pub footer: String,
}

/// The header line `type(scope)!: desc` of a draft.
pub open spec fn draft_header(d: &Draft) -> Seq<char> {
    d.type_@ + (if d.scope@.len() > 0 {
        "("@ + d.scope@ + ")"@
    } else {
        seq![]
    }) + (if d.breaking {
        "!"@
    } else {
        seq![]
    }) + ": "@ + d.desc@
}

/// A paragraph `\n\n<text>` that is present only when `on` holds.
pub open spec fn paragraph(on: bool, text: Seq<char>) -> Seq<char> {
    if on {
        "\n\n"@ + text
    } else {
        seq![]
    }
}

/// The full message of a draft: header, then body, breaking-change note and
/// footer, each after a blank line and each only when present.
pub open spec fn assembled(d: &Draft) -> Seq<char> {
    draft_header(d) + paragraph(d.body@.len() > 0, d.body@) + paragraph(
        d.breaking && d.breaking_desc@.len() > 0,
        "BREAKING CHANGE: "@ + d.breaking_desc@,
    ) + paragraph(d.footer@.len() > 0, d.footer@)
}

fn is_empty(s: &String) -> (r: bool)
    ensures
        r == (s@.len() == 0),
{
    chars_of(s.as_str()).len() == 0
}

/// Assemble the commit message of a draft.
pub fn assemble(d: &Draft) -> (msg: String)
    ensures
        msg@ == assembled(d),
{
    let mut msg = string_of(d.type_.as_str());
    if !is_empty(&d.scope) {
        push_str(&mut msg, "(");
        push_str(&mut msg, d.scope.as_str());
        push_str(&mut msg, ")");
    }
    if d.breaking {
        push_str(&mut msg, "!");
    }
    push_str(&mut msg, ": ");
    push_str(&mut msg, d.desc.as_str());
    assert(msg@ == draft_header(d));
    let ghost h = msg@;
    if !is_empty(&d.body) {
        push_str(&mut msg, "\n\n");
        push_str(&mut msg, d.body.as_str());
    }
    assert(msg@ =~= h + paragraph(d.body@.len() > 0, d.body@));
    let ghost h2 = msg@;
    if d.breaking && !is_empty(&d.breaking_desc) {
        push_str(&mut msg, "\n\nBREAKING CHANGE: ");
        push_str(&mut msg, d.breaking_desc.as_str());
    }
    assert(msg@ =~= h2 + paragraph(
        d.breaking && d.breaking_desc@.len() > 0,
        "BREAKING CHANGE: "@ + d.breaking_desc@,
    )) by {
        reveal_strlit("\n\nBREAKING CHANGE: ");
        reveal_strlit("\n\n");
        reveal_strlit("BREAKING CHANGE: ");
    }
    let ghost h3 = msg@;
    if !is_empty(&d.footer) {
        push_str(&mut msg, "\n\n");
        push_str(&mut msg, d.footer.as_str());
    }
    assert(msg@ =~= h3 + paragraph(d.footer@.len() > 0, d.footer@));
    msg
}

// ---------------------------------------------------------------------------
// Labels shown by the pickers
// ---------------------------------------------------------------------------

/// `s` padded with spaces on the right to `width` characters (`{:<width}`).
pub open spec fn pad_right(s: Seq<char>, width: nat) -> Seq<char> {
    if s.len() < width {
        s + Seq::new((width - s.len()) as nat, |i: int| ' ')
    } else {
        s
    }
}

/// `n` copies of `c`.
pub open spec fn repeat_char(c: char, n: nat) -> Seq<char> {
    Seq::new(n, |i: int| c)
}

/// Appends `n` copies of `c` to `s`.
pub fn push_repeat(s: &mut String, c: char, n: usize)
    ensures
        final(s)@ == old(s)@ + repeat_char(c, n as nat),
{
    let ghost start = s@;
    let mut i: usize = 0;
    while i < n
        invariant
            i <= n,
            s@ == start + repeat_char(c, i as nat),
        decreases n - i,
    {
        crate::text::push_char(s, c);
        assert(repeat_char(c, (i + 1) as nat) == repeat_char(c, i as nat).push(c));
        i += 1;
    }
}

/// Appends `t` padded to `width` characters.
pub fn push_padded(s: &mut String, t: &str, width: usize)
    ensures
        final(s)@ == old(s)@ + pad_right(t@, width as nat),
{
    let n = chars_of(t).len();
    push_str(s, t);
    if n < width {
        push_repeat(s, ' ', width - n);
        assert(repeat_char(' ', (width - n) as nat) == Seq::new(
            (width - t@.len()) as nat,
            |i: int| ' ',
        ));
    }
}

/// The semver badge shown after a type name.
pub open spec fn badge(semver: Seq<char>, p: &Palette) -> Seq<char> {
    if semver == "minor"@ {
        "  "@ + p.muted@ + "["@ + p.reset@ + p.green@ + "minor"@ + p.reset@ + p.muted@ + "]"@
            + p.reset@
    } else if semver == "patch"@ {
        "  "@ + p.muted@ + "["@ + p.reset@ + p.yellow@ + "patch"@ + p.reset@ + p.muted@ + "]"@
            + p.reset@
    } else {
        "         "@
    }
}

/// The picker label of a commit type.
pub open spec fn type_label_text(t: CommitTypeView, p: &Palette) -> Seq<char> {
    t.emoji + "  "@ + p.bold@ + pad_right(t.type_, 10) + p.reset@ + badge(t.semver, p) + "  "@
        + p.muted@ + t.description + p.reset@
}

/// The picker label of a commit type: emoji, padded name, semver badge and
/// description.
pub fn type_label(t: &CommitType, p: &Palette) -> (r: String)
    ensures
        r@ == type_label_text(t@, p),
{
    let mut r = string_of(t.emoji.as_str());
    push_str(&mut r, "  ");
    push_str(&mut r, p.bold);
    push_padded(&mut r, t.type_.as_str(), 10);
    push_str(&mut r, p.reset);
    if str_eq(t.semver.as_str(), "minor") {
        push_str(&mut r, "  ");
        push_str(&mut r, p.muted);
        push_str(&mut r, "[");
        push_str(&mut r, p.reset);
        push_str(&mut r, p.green);
        push_str(&mut r, "minor");
        push_str(&mut r, p.reset);
        push_str(&mut r, p.muted);
        push_str(&mut r, "]");
        push_str(&mut r, p.reset);
    } else if str_eq(t.semver.as_str(), "patch") {
        push_str(&mut r, "  ");
        push_str(&mut r, p.muted);
        push_str(&mut r, "[");
        push_str(&mut r, p.reset);
        push_str(&mut r, p.yellow);
        push_str(&mut r, "patch");
        push_str(&mut r, p.reset);
        push_str(&mut r, p.muted);
        push_str(&mut r, "]");
        push_str(&mut r, p.reset);
    } else {
        push_str(&mut r, "         ");
    }
    push_str(&mut r, "  ");
    push_str(&mut r, p.muted);
    push_str(&mut r, t.description.as_str());
    push_str(&mut r, p.reset);
    r
}

/// The labels of the type picker, one per configured type.
pub fn type_labels(cfg: &Config, p: &Palette) -> (r: Vec<String>)
    ensures
        r@.len() == cfg.types@.len(),
        forall|i: int| 0 <= i < r@.len() ==> r@[i]@ == type_label_text(cfg.types@[i]@, p),
{
    let mut r: Vec<String> = Vec::new();
    let mut i: usize = 0;
    while i < cfg.types.len()
        invariant
            i <= cfg.types@.len(),
            r@.len() == i,
            forall|j: int| 0 <= j < i ==> r@[j]@ == type_label_text(cfg.types@[j]@, p),
        decreases cfg.types.len() - i,
    {
        r.push(type_label(&cfg.types[i], p));
        i += 1;
    }
    r
}

/// The type chosen in the type picker; the first type when nothing was chosen.
pub fn chosen_type(cfg: &Config, picked: Option<usize>) -> (r: String)
    requires
        cfg.types@.len() > 0,
        picked matches Some(i) ==> i < cfg.types@.len(),
    ensures
        r@ == cfg.types@[match picked {
            Some(i) => i as int,
            None => 0,
        }].type_@,
{
    let idx = match picked {
        Some(i) => i,
        None => 0,
    };
    cfg.types[idx].type_.clone()
}

pub open spec fn scope_label_text(s: Seq<char>, p: &Palette) -> Seq<char> {
    p.bold@ + s + p.reset@
}

pub open spec fn custom_label(p: &Palette) -> Seq<char> {
    p.muted@ + "─  custom"@ + p.reset@ + "  "@ + p.muted@ + "type your own"@ + p.reset@
}

pub open spec fn skip_label(p: &Palette) -> Seq<char> {
    p.muted@ + "─  skip"@ + p.reset@
}

/// The labels of the scope picker: the configured scopes, then "custom",
/// then "skip".
pub fn scope_labels(cfg: &Config, p: &Palette) -> (r: Vec<String>)
    ensures
        r@.len() == cfg.scopes@.len() + 2,
        forall|i: int|
            0 <= i < cfg.scopes@.len() ==> r@[i]@ == scope_label_text(cfg.scopes@[i]@, p),
        r@[cfg.scopes@.len() as int]@ == custom_label(p),
        r@[cfg.scopes@.len() + 1 as int]@ == skip_label(p),
{
    let mut r: Vec<String> = Vec::new();
    let mut i: usize = 0;
    while i < cfg.scopes.len()
        invariant
            i <= cfg.scopes@.len(),
            r@.len() == i,
            forall|j: int| 0 <= j < i ==> r@[j]@ == scope_label_text(cfg.scopes@[j]@, p),
        decreases cfg.scopes.len() - i,
    {
        let mut l = string_of(p.bold);
        push_str(&mut l, cfg.scopes[i].as_str());
        push_str(&mut l, p.reset);
        r.push(l);
        i += 1;
    }
    let mut c = string_of(p.muted);
    push_str(&mut c, "─  custom");
    push_str(&mut c, p.reset);
    push_str(&mut c, "  ");
    push_str(&mut c, p.muted);
    push_str(&mut c, "type your own");
    push_str(&mut c, p.reset);
    r.push(c);
    let mut s = string_of(p.muted);
    push_str(&mut s, "─  skip");
    push_str(&mut s, p.reset);
    r.push(s);
    r
}

/// What the scope picker's answer means.
pub enum ScopeChoice {
    /// One of the configured scopes, by index.
    Configured(usize),
    /// The user wants to type a scope.
    Custom,
    /// No scope.
    Skip,
}

/// Interpret the scope picker's answer over `n_scopes` configured scopes
/// (no answer counts as "skip").
pub fn scope_choice(n_scopes: usize, picked: Option<usize>) -> (r: ScopeChoice)
    requires
        n_scopes + 2 <= usize::MAX,
    ensures
        r == (match picked {
            Some(i) if i < n_scopes => ScopeChoice::Configured(i),
            Some(i) if i == n_scopes => ScopeChoice::Custom,
            _ => ScopeChoice::Skip,
        }),
{
    let idx = match picked {
        Some(i) => i,
        None => n_scopes + 1,
    };
    if idx < n_scopes {
        ScopeChoice::Configured(idx)
    } else if idx == n_scopes {
        ScopeChoice::Custom
    } else {
        ScopeChoice::Skip
    }
}

// ---------------------------------------------------------------------------
// Answers typed at the prompts
// ---------------------------------------------------------------------------

/// How a typed description fares.
pub enum DescriptionCheck {
    /// Nothing was typed; the prompt repeats.
    Empty,
    /// Longer than the header limit; the user is asked to confirm.
    TooLong,
    /// Accepted.
    Accepted,
}

/// Judge a typed description against the maximum header length.
pub fn check_description(desc: &str, max_header_length: usize) -> (r: DescriptionCheck)
    ensures
        r == (if desc@.len() == 0 {
            DescriptionCheck::Empty
        } else if desc@.len() > max_header_length {
            DescriptionCheck::TooLong
        } else {
            DescriptionCheck::Accepted
        }),
{
    let n = chars_of(desc).len();
    if n == 0 {
        DescriptionCheck::Empty
    } else if n > max_header_length {
        DescriptionCheck::TooLong
    } else {
        DescriptionCheck::Accepted
    }
}

/// The answer is "y" in any case (accepting an over-long description, or
/// confirming the rebuilt amend with anything but "n").
pub fn is_answer(answer: &str, word: &str) -> (r: bool)
    ensures
        r == eq_ignore_ascii_case(answer@, word@),
{
    str_eq_ignore_ascii_case(answer, word)
}

/// The answer equals one of the words, ignoring ASCII case. For the words
/// used by the prompts this agrees with comparing `answer.to_lowercase()`.
pub open spec fn answer_in(answer: Seq<char>, words: Seq<Seq<char>>) -> bool {
    exists|i: int| 0 <= i < words.len() && eq_ignore_ascii_case(answer, words[i])
}

/// The yes/no answer at the "breaking change?" prompt: yes for "y"/"yes",
/// no for "n"/"no"/empty, nothing (ask again) otherwise.
pub fn breaking_answer(answer: &str) -> (r: Option<bool>)
    ensures
        r == (if answer_in(answer@, seq!["y"@, "yes"@]) {
            Some(true)
        } else if answer_in(answer@, seq!["n"@, "no"@, ""@]) {
            Some(false)
        } else {
            None
        }),
{
    if is_answer(answer, "y") || is_answer(answer, "yes") {
        Some(true)
    } else if is_answer(answer, "n") || is_answer(answer, "no") || is_answer(answer, "") {
        Some(false)
    } else {
        None
    }
}

/// What the answer at the "commit?" prompt asks for.
#[derive(Debug, Clone, Copy, PartialEq, Eq, Structural)]
pub enum CommitChoice {
    /// Commit the message as it stands.
    Commit,
    /// Leave without committing.
    Abort,
    /// Edit the message in `$EDITOR`, then commit what comes back.
    Edit,
    /// Not understood: ask again.
    Again,
}

/// The answer at the "commit?" prompt (`[Y/n/e]`), ignoring ASCII case:
/// commit for empty/"y"/"yes", abort for "n"/"no", edit for "e"/"edit",
/// ask again otherwise.
pub fn commit_answer(answer: &str) -> (r: CommitChoice)
    ensures
        r == (if answer_in(answer@, seq![""@, "y"@, "yes"@]) {
            CommitChoice::Commit
        } else if answer_in(answer@, seq!["n"@, "no"@]) {
            CommitChoice::Abort
        } else if answer_in(answer@, seq!["e"@, "edit"@]) {
            CommitChoice::Edit
        } else {
            CommitChoice::Again
        }),
{
    if is_answer(answer, "") || is_answer(answer, "y") || is_answer(answer, "yes") {
        CommitChoice::Commit
    } else if is_answer(answer, "n") || is_answer(answer, "no") {
        CommitChoice::Abort
    } else if is_answer(answer, "e") || is_answer(answer, "edit") {
        CommitChoice::Edit
    } else {
        CommitChoice::Again
    }
}

/// What the `amend` prompt's answer asks for.
pub enum AmendChoice {
    /// Edit the last message raw in `$EDITOR`.
    Edit,
    /// Rebuild the message with the wizard.
    Rebuild,
    /// Leave the last commit alone.
    Abort,
}

/// Interpret the answer at the `amend` prompt: `e`/`E` edits, empty/`y`/`Y`
/// rebuilds, anything else aborts.
pub fn amend_choice(answer: &str) -> (r: AmendChoice)
    ensures
        r == (if answer@ == "e"@ || answer@ == "E"@ {
            AmendChoice::Edit
        } else if answer@ == ""@ || answer@ == "y"@ || answer@ == "Y"@ {
            AmendChoice::Rebuild
        } else {
            AmendChoice::Abort
        }),
{
    if str_eq(answer, "e") || str_eq(answer, "E") {
        AmendChoice::Edit
    } else if str_eq(answer, "") || str_eq(answer, "y") || str_eq(answer, "Y") {
        AmendChoice::Rebuild
    } else {
        AmendChoice::Abort
    }
}

// ---------------------------------------------------------------------------
// Assembled messages pass the linter
// ---------------------------------------------------------------------------

/// A well-formed type name: a lowercase letter, then type characters.
pub open spec fn type_token(t: Seq<char>) -> bool {
    &&& t.len() > 0
    &&& is_lower(t[0])
    &&& forall|i: int| 1 <= i < t.len() ==> is_type_char(#[trigger] t[i])
}

pub open spec fn no_char(s: Seq<char>, c: char) -> bool {
    forall|i: int| 0 <= i < s.len() ==> s[i] != c
}

/// A draft the wizard can produce for a configuration without upsetting the
/// linter: a configured, well-formed type; a scope without `)` or line
/// breaks (and present when the rules require one); a non-empty one-line
/// description that obeys the case and period rules.
pub open spec fn lintable_draft(d: &Draft, cfg: ConfigView) -> bool {
    &&& type_token(d.type_@)
    &&& type_known(cfg.types, d.type_@)
    &&& no_char(d.scope@, ')')
    &&& no_char(d.scope@, '\n')
    &&& (cfg.rules.require_scope ==> d.scope@.len() > 0)
    &&& d.desc@.len() > 0
    &&& no_char(d.desc@, '\n')
    &&& !(starts_upper(d.desc@) && cfg.rules.disallow_upper_case_description)
    &&& !(ends_with_period(d.desc@) && cfg.rules.disallow_trailing_period)
}

proof fn lemma_type_run_stop(h: Seq<char>, i: nat, t: nat)
    requires
        i <= t <= h.len(),
        forall|j: int| i <= j < t ==> is_type_char(h[j]),
        t == h.len() || !is_type_char(h[t as int]),
    ensures
        type_run(h, i) == t,
    decreases t - i,
{
    if i < t {
        lemma_type_run_stop(h, i + 1, t);
    }
}

/// The header of a lintable draft parses back into its type, whether it has
/// a scope, and its description.
pub proof fn law_header_parses(d: &Draft, cfg: ConfigView)
    requires
        lintable_draft(d, cfg),
    ensures
        parsed_header(draft_header(d)) == Some((d.type_@, d.scope@.len() > 0, d.desc@)),
{
    reveal_strlit("(");
    reveal_strlit(")");
    reveal_strlit("!");
    reveal_strlit(": ");
    let t = d.type_@;
    let sc = d.scope@;
    let scope_part: Seq<char> = if sc.len() > 0 {
        "("@ + sc + ")"@
    } else {
        seq![]
    };
    let bang: Seq<char> = if d.breaking {
        "!"@
    } else {
        seq![]
    };
    let h = draft_header(d);
    assert(h == t + scope_part + bang + ": "@ + d.desc@);
    let tl = t.len();
    let j: nat = (tl + scope_part.len()) as nat;
    let k: nat = j + bang.len();
    assert(h[0] == t[0]);
    assert forall|i: int| 1 <= i < tl implies is_type_char(h[i]) by {
        assert(h[i] == t[i]);
    }
    // the character after the type is `(`, `!` or `:`
    assert(!is_type_char(h[tl as int])) by {
        if sc.len() > 0 {
            assert(h[tl as int] == '(');
        } else if d.breaking {
            assert(h[tl as int] == '!');
        } else {
            assert(h[tl as int] == ':');
        }
    }
    lemma_type_run_stop(h, 1, tl);
    assert(type_end(h) == tl);
    if sc.len() > 0 {
        let rest = h.skip(tl + 1 as int);
        assert forall|i: int| 0 <= i < sc.len() implies rest[i] != ')' by {
            assert(rest[i] == sc[i]);
        }
        assert(rest[sc.len() as int] == ')');
        lemma_first_of(rest, ')', sc.len() as int);
        assert(after_scope(h) == Some(j));
    } else {
        assert(after_scope(h) == Some(j));
    }
    if d.breaking {
        assert(h[j as int] == '!');
    } else {
        assert(h[j as int] == ':');
    }
    assert(colon_at(h, j) == k);
    assert(h[k as int] == ':');
    assert(h[k + 1 as int] == ' ');
    assert(h.take(tl as int) =~= t);
    assert(h.skip(k + 2 as int) =~= d.desc@);
}

/// The text after the header of an assembled message is empty or starts
/// with a blank line.
proof fn lemma_assembled_lines(d: &Draft, cfg: ConfigView)
    requires
        lintable_draft(d, cfg),
    ensures
        first_line(assembled(d)) == draft_header(d),
        !body_without_blank(assembled(d)),
{
    reveal_strlit("(");
    reveal_strlit(")");
    reveal_strlit("!");
    reveal_strlit(": ");
    reveal_strlit("\n\n");
    let h = draft_header(d);
    let m = assembled(d);
    let tail = m.skip(h.len() as int);
    assert(m == h + tail);
    assert(m.take(h.len() as int) =~= h);
    // the header holds no line break
    assert forall|i: int| 0 <= i < h.len() implies h[i] != '\n' by {
        let t = d.type_@;
        let sc = d.scope@;
        if i < t.len() {
            if i > 0 {
                assert(is_type_char(t[i]));
            }
        }
    }
    assert(tail.len() == 0 || tail[0] == '\n');
    lemma_first_of(m, '\n', h.len() as int);
    if tail.len() > 0 {
        assert(tail[1] == '\n');
        let rest = m.skip(h.len() + 1 as int);
        assert(rest[0] == '\n');
        lemma_first_of(rest, '\n', 0);
        assert(after_first_line(m) == Some(rest));
    }
}

/// The wizard's messages pass the linter: a lintable draft assembles into a
/// message without lint errors, so `lint` exits 0 on it.
pub proof fn law_assembled_messages_pass_lint(d: &Draft, cfg: ConfigView)
    requires
        lintable_draft(d, cfg),
    ensures
        lint_errors(assembled(d), cfg) == Seq::<Seq<char>>::empty(),
{
    law_header_parses(d, cfg);
    lemma_assembled_lines(d, cfg);
    let e = header_errors(draft_header(d), cfg);
    assert(e =~= Seq::<Seq<char>>::empty());
    assert(lint_errors(assembled(d), cfg) =~= Seq::<Seq<char>>::empty());
}

} // verus!
