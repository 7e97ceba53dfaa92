//! The pretty commit log: subject analysis, options and the rendered entries.
use vstd::prelude::*;
use crate::commit::{draft_header, law_header_parses, lintable_draft, Draft};
use crate::lint::{lemma_type_run_bounds, parsed_header, type_end, type_run};
use crate::text::{
    ascii_lower, chars_of, contains, decimal, decimal_string, first_of, is_lower, lemma_first_of,
    occurs_at, parse_usize, parsed_usize, push_owned, push_str, starts_with, str_contains, str_eq,
    string_from_range, string_of,
};
use crate::types::{CommitTypeView, Config, ConfigView};
use crate::ui::Palette;

verus! {

/// The type of a conventional subject: the leading `[a-z][a-z0-9_-]*` when
/// it is followed by `(`, `:` or `!`.
pub open spec fn subject_type(s: Seq<char>) -> Option<Seq<char>> {
    if s.len() == 0 || !is_lower(s[0]) {
        None
    } else {
        let i = type_run(s, 1);
        if i < s.len() && (s[i as int] == '(' || s[i as int] == ':' || s[i as int] == '!') {
            Some(s.take(i as int))
        } else {
            None
        }
    }
}

/// The commit type of a subject line, if it has one.
pub fn parse_type(subject: &str) -> (r: Option<String>)
    ensures
        match r {
            Some(t) => subject_type(subject@) == Some(t@),
            None => subject_type(subject@) is None,
        },
{
    let v = chars_of(subject);
    if v.len() == 0 || !ascii_lower(v[0]) {
        return None;
    }
    let mut i: usize = 1;
    while i < v.len() && (ascii_lower(v[i]) || ('0' <= v[i] && v[i] <= '9') || v[i] == '_' || v[i]
        == '-')
        invariant
            1 <= i <= v@.len(),
            type_run(v@, 1) == type_run(v@, i as nat),
        decreases v.len() - i,
    {
        i += 1;
    }
    if i < v.len() && (v[i] == '(' || v[i] == ':' || v[i] == '!') {
        Some(string_from_range(&v, 0, i))
    } else {
        None
    }
}

/// A subject marks a breaking change with `!:`.
pub fn is_breaking(subject: &str) -> (r: bool)
    ensures
        r == contains(subject@, "!:"@),
{
    str_contains(subject, "!:")
}

// ---------------------------------------------------------------------------
// Options
// ---------------------------------------------------------------------------

/// What `log` shows: how many commits, and the type and author filters
/// (empty: no filter).
pub struct LogOptions {
    pub limit: usize,
    pub filter_type: String,
    pub filter_author: String,
}

/// The options after reading `args` in order: `--type=T` and `--author=A`
/// set the filters, a number sets the limit, anything else is ignored; a
/// later argument wins.
pub open spec fn log_options(args: Seq<Seq<char>>) -> (nat, Seq<char>, Seq<char>)
    decreases args.len(),
{
    if args.len() == 0 {
        (20, seq![], seq![])
    } else {
        let (limit, t, a) = log_options(args.drop_last());
        let x = args.last();
        if starts_with(x, "--type="@) {
            (limit, x.skip(7), a)
        } else if starts_with(x, "--author="@) {
            (limit, t, x.skip(9))
        } else {
            match parsed_usize(x) {
                Some(n) => (n, t, a),
                None => (limit, t, a),
            }
        }
    }
}

fn strip_prefix(s: &str, prefix: &str) -> (r: Option<String>)
    ensures
        match r {
            Some(rest) => starts_with(s@, prefix@) && rest@ == s@.skip(prefix@.len() as int),
            None => !starts_with(s@, prefix@),
        },
{
    let v = chars_of(s);
    let p = chars_of(prefix);
    if crate::text::occurs_at_exec(&v, &p, 0) {
        assert(v@.subrange(0, p@.len() as int) == p@);
        let r = string_from_range(&v, p.len(), v.len());
        assert(v@.subrange(p@.len() as int, v@.len() as int) == s@.skip(prefix@.len() as int));
        Some(r)
    } else {
        None
    }
}

/// Read the options of `log` from its arguments.
pub fn parse_log_args(args: &Vec<String>) -> (o: LogOptions)
    ensures
        log_options(args.deep_view()) == (o.limit as nat, o.filter_type@, o.filter_author@),
{
    let mut o = LogOptions { limit: 20, filter_type: String::new(), filter_author: String::new() };
    let mut i: usize = 0;
    assert(args.deep_view().take(0) =~= Seq::<Seq<char>>::empty());
    while i < args.len()
        invariant
            i <= args@.len(),
            log_options(args.deep_view().take(i as int)) == (
                o.limit as nat,
                o.filter_type@,
                o.filter_author@,
            ),
        decreases args.len() - i,
    {
        let a = args[i].as_str();
        assert(args.deep_view().take(i + 1).drop_last() == args.deep_view().take(i as int));
        assert(args.deep_view().take(i + 1).last() == a@);
        proof {
            reveal_strlit("--type=");
            reveal_strlit("--author=");
        }
        match strip_prefix(a, "--type=") {
            Some(t) => {
                o.filter_type = t;
            },
            None => match strip_prefix(a, "--author=") {
                Some(au) => {
                    o.filter_author = au;
                },
                None => match parse_usize(a) {
                    Some(n) => {
                        o.limit = n;
                    },
                    None => {},
                },
            },
        }
        i += 1;
    }
    assert(args.deep_view().take(args@.len() as int) == args.deep_view());
    o
}

/// The heading printed above the log.
pub open spec fn log_heading_text(limit: nat, t: Seq<char>, a: Seq<char>, p: &Palette) -> Seq<char> {
    let label = "last "@ + decimal(limit) + " commits"@ + (if t.len() > 0 {
        "  "@ + p.muted@ + "type="@ + t + p.reset@
    } else {
        seq![]
    }) + (if a.len() > 0 {
        "  "@ + p.muted@ + "author="@ + a + p.reset@
    } else {
        seq![]
    });
    "\n  "@ + p.accent_bold@ + "log"@ + p.reset@ + "  "@ + p.muted@ + label + p.reset@ + "\n"@
}

/// The heading printed above the log.
pub fn log_heading(o: &LogOptions, p: &Palette) -> (s: String)
    ensures
        s@ == log_heading_text(o.limit as nat, o.filter_type@, o.filter_author@, p),
{
    let mut label = string_of("last ");
    let n = decimal_string(o.limit);
    push_str(&mut label, n.as_str());
    push_str(&mut label, " commits");
    if !o.filter_type.as_str().is_empty() {
        push_str(&mut label, "  ");
        push_str(&mut label, p.muted);
        push_str(&mut label, "type=");
        push_str(&mut label, o.filter_type.as_str());
        push_str(&mut label, p.reset);
    }
    if !o.filter_author.as_str().is_empty() {
        push_str(&mut label, "  ");
        push_str(&mut label, p.muted);
        push_str(&mut label, "author=");
        push_str(&mut label, o.filter_author.as_str());
        push_str(&mut label, p.reset);
    }
    let mut s = string_of("\n  ");
    push_str(&mut s, p.accent_bold);
    push_str(&mut s, "log");
    push_str(&mut s, p.reset);
    push_str(&mut s, "  ");
    push_str(&mut s, p.muted);
    push_str(&mut s, label.as_str());
    push_str(&mut s, p.reset);
    push_str(&mut s, "\n");
    s
}

// ---------------------------------------------------------------------------
// Entries
// ---------------------------------------------------------------------------

/// `s.splitn(n, '|')`.
pub open spec fn split_bars(s: Seq<char>, n: nat) -> Seq<Seq<char>>
    decreases n,
{
    if n <= 1 {
        seq![s]
    } else {
        let k = first_of(s, '|');
        if k < s.len() {
            seq![s.take(k as int)] + split_bars(s.skip(k + 1 as int), (n - 1) as nat)
        } else {
            seq![s]
        }
    }
}

fn split_bars_exec(s: &str, n: usize) -> (r: Vec<String>)
    requires
        n >= 1,
    ensures
        r.deep_view() == split_bars(s@, n as nat),
{
    let v = chars_of(s);
    let mut r: Vec<String> = Vec::new();
    let mut start: usize = 0;
    let mut left = n;
    assert(v@.skip(0) == v@);
    loop
        invariant
            start <= v@.len(),
            1 <= left <= n,
            v@ == s@,
            split_bars(s@, n as nat) == r.deep_view() + split_bars(v@.skip(start as int), left as nat),
        decreases left,
    {
        let ghost t = v@.skip(start as int);
        if left == 1 {
            push_owned(&mut r, string_from_range(&v, start, v.len()));
            assert(v@.subrange(start as int, v@.len() as int) == t);
            return r;
        }
        let mut k = start;
        while k < v.len() && v[k] != '|'
            invariant
                start <= k <= v@.len(),
                forall|j: int| start <= j < k ==> v@[j] != '|',
            decreases v.len() - k,
        {
            k += 1;
        }
        proof {
            lemma_first_of(t, '|', k - start);
        }
        if k == v.len() {
            push_owned(&mut r, string_from_range(&v, start, v.len()));
            assert(v@.subrange(start as int, v@.len() as int) == t);
            return r;
        }
        push_owned(&mut r, string_from_range(&v, start, k));
        assert(v@.subrange(start as int, k as int) == t.take(k - start));
        assert(t.skip(k - start + 1) == v@.skip(k + 1));
        start = k + 1;
        left = left - 1;
    }
}

/// Index of the first type named `name` at or after `i`, if any.
pub open spec fn find_type_from(types: Seq<CommitTypeView>, name: Seq<char>, i: nat) -> Option<nat>
    decreases types.len() - i,
{
    if i >= types.len() {
        None
    } else if types[i as int].type_ == name {
        Some(i)
    } else {
        find_type_from(types, name, i + 1)
    }
}

/// The emoji shown for a commit type: the one of the first configured type
/// of that name, `·` when there is none.
pub open spec fn entry_emoji(types: Seq<CommitTypeView>, ty: Seq<char>) -> Seq<char> {
    if ty.len() > 0 {
        match find_type_from(types, ty, 0) {
            Some(i) => types[i as int].emoji,
            None => "·"@,
        }
    } else {
        "·"@
    }
}

/// The color of a subject by its type.
pub open spec fn entry_color(ty: Seq<char>, p: &Palette) -> Seq<char> {
    if ty.len() == 0 {
        p.reset@
    } else if ty == "feat"@ {
        p.green@
    } else if ty == "fix"@ || ty == "perf"@ {
        p.yellow@
    } else if ty == "revert"@ {
        p.red@
    } else {
        p.muted@
    }
}

/// What `log` prints for one line `hash|short|date|author|subject` of
/// `git log`, or `None` when the line is malformed or filtered out.
pub open spec fn log_entry_text(
    line: Seq<char>,
    types: Seq<CommitTypeView>,
    filter_type: Seq<char>,
    filter_author: Seq<char>,
    p: &Palette,
) -> Option<Seq<char>> {
    let parts = split_bars(line, 5);
    if parts.len() < 5 {
        None
    } else {
        let short = parts[1];
        let date = parts[2];
        let author = parts[3];
        let subject = parts[4];
        let ty = match subject_type(subject) {
            Some(t) => t,
            None => seq![],
        };
        if filter_type.len() > 0 && ty != filter_type {
            None
        } else if filter_author.len() > 0 && !contains(author, filter_author) {
            None
        } else {
            let breaking = if contains(subject, "!:"@) {
                " "@ + p.red@ + "breaking"@ + p.reset@
            } else {
                seq![]
            };
            Some(
                "  "@ + p.muted@ + short + p.reset@ + "  "@ + entry_emoji(types, ty) + "  "@
                    + entry_color(ty, p) + p.bold@ + subject + p.reset@ + breaking + "\n"@ + "  "@
                    + p.muted@ + date + "  "@ + author + p.reset@ + "\n"@ + "\n"@,
            )
        }
    }
}

fn emoji_for(cfg: &Config, ty: &String) -> (r: String)
    ensures
        r@ == entry_emoji(cfg@.types, ty@),
{
    if ty.as_str().is_empty() {
        return string_of("·");
    }
    let mut i: usize = 0;
    while i < cfg.types.len()
        invariant
            i <= cfg.types@.len(),
            ty@.len() > 0,
            find_type_from(cfg@.types, ty@, 0) == find_type_from(cfg@.types, ty@, i as nat),
        decreases cfg.types.len() - i,
    {
        if cfg.types[i].type_ == *ty {
            return cfg.types[i].emoji.clone();
        }
        i += 1;
    }
    string_of("·")
}

fn color_for(ty: &String, p: &Palette) -> (c: &'static str)
    ensures
        c@ == entry_color(ty@, p),
{
    if ty.as_str().is_empty() {
        p.reset
    } else if str_eq(ty.as_str(), "feat") {
        p.green
    } else if str_eq(ty.as_str(), "fix") || str_eq(ty.as_str(), "perf") {
        p.yellow
    } else if str_eq(ty.as_str(), "revert") {
        p.red
    } else {
        p.muted
    }
}

/// Render one line of `git log --format=%H|%h|%ad|%an|%s`.
pub fn log_entry(line: &str, cfg: &Config, o: &LogOptions, p: &Palette) -> (r: Option<String>)
    ensures
        match r {
            Some(t) => log_entry_text(line@, cfg@.types, o.filter_type@, o.filter_author@, p) == Some(
                t@,
            ),
            None => log_entry_text(line@, cfg@.types, o.filter_type@, o.filter_author@, p) is None,
        },
{
    let parts = split_bars_exec(line, 5);
    if parts.len() < 5 {
        return None;
    }
    let short = parts[1].as_str();
    let date = parts[2].as_str();
    let author = parts[3].as_str();
    let subject = parts[4].as_str();
    assert(parts.deep_view()[1] == short@);
    assert(parts.deep_view()[2] == date@);
    assert(parts.deep_view()[3] == author@);
    assert(parts.deep_view()[4] == subject@);
    let ty = match parse_type(subject) {
        Some(t) => t,
        None => String::new(),
    };
    if !o.filter_type.as_str().is_empty() && !str_eq(ty.as_str(), o.filter_type.as_str()) {
        return None;
    }
    if !o.filter_author.as_str().is_empty() && !str_contains(author, o.filter_author.as_str()) {
        return None;
    }
    let emoji = emoji_for(cfg, &ty);
    let color = color_for(&ty, p);
    let mut s = string_of("  ");
    push_str(&mut s, p.muted);
    push_str(&mut s, short);
    push_str(&mut s, p.reset);
    push_str(&mut s, "  ");
    push_str(&mut s, emoji.as_str());
    push_str(&mut s, "  ");
    push_str(&mut s, color);
    push_str(&mut s, p.bold);
    push_str(&mut s, subject);
    push_str(&mut s, p.reset);
    if is_breaking(subject) {
        push_str(&mut s, " ");
        push_str(&mut s, p.red);
        push_str(&mut s, "breaking");
        push_str(&mut s, p.reset);
    }
    push_str(&mut s, "\n");
    push_str(&mut s, "  ");
    push_str(&mut s, p.muted);
    push_str(&mut s, date);
    push_str(&mut s, "  ");
    push_str(&mut s, author);
    push_str(&mut s, p.reset);
    push_str(&mut s, "\n");
    push_str(&mut s, "\n");
    Some(s)
}

// ---------------------------------------------------------------------------
// The log and the linter agree
// ---------------------------------------------------------------------------

/// The log reads from a subject the same type as the linter reads from a
/// header that it accepts.
pub proof fn law_log_type_agrees_with_lint(h: Seq<char>)
    requires
        parsed_header(h) is Some,
    ensures
        subject_type(h) == Some(parsed_header(h).unwrap().0),
{
    lemma_type_run_bounds(h, 1);
    let t = type_end(h);
    assert(t == type_run(h, 1));
}

/// The header of a message built from a lintable draft shows in the log
/// with the draft's type, and marked breaking when the draft is.
pub proof fn law_log_reads_assembled_header(d: &Draft, cfg: ConfigView)
    requires
        lintable_draft(d, cfg),
    ensures
        subject_type(draft_header(d)) == Some(d.type_@),
        d.breaking ==> contains(draft_header(d), "!:"@),
{
    law_header_parses(d, cfg);
    law_log_type_agrees_with_lint(draft_header(d));
    if d.breaking {
        reveal_strlit("(");
        reveal_strlit(")");
        reveal_strlit("!");
        reveal_strlit(": ");
        reveal_strlit("!:");
        let h = draft_header(d);
        let scope_part: Seq<char> = if d.scope@.len() > 0 {
            "("@ + d.scope@ + ")"@
        } else {
            seq![]
        };
        let i: int = d.type_@.len() + scope_part.len() as int;
        assert(h == d.type_@ + scope_part + "!"@ + ": "@ + d.desc@);
        assert(h[i] == '!' && h[i + 1] == ':');
        assert(h.subrange(i, i + 2) =~= "!:"@);
        assert(occurs_at(h, "!:"@, i));
    }
}

/// Which log lines are shown: a well-formed line is kept exactly when its
/// subject's type is the type filter (or there is none) and the author field
/// holds the author filter somewhere as a substring (or there is none).
pub proof fn law_log_filters(
    line: Seq<char>,
    types: Seq<CommitTypeView>,
    filter_type: Seq<char>,
    filter_author: Seq<char>,
    p: &Palette,
)
    requires
        split_bars(line, 5).len() == 5,
    ensures
        ({
            let author = split_bars(line, 5)[3];
            let subject = split_bars(line, 5)[4];
            let type_ok = filter_type.len() == 0 || subject_type(subject) == Some(filter_type);
            let author_ok = filter_author.len() == 0 || exists|i: int|
                0 <= i && i + filter_author.len() <= author.len() && #[trigger] author.subrange(
                    i,
                    i + filter_author.len(),
                ) == filter_author;
            (log_entry_text(line, types, filter_type, filter_author, p) is Some) <==> (type_ok
                && author_ok)
        }),
{
    let author = split_bars(line, 5)[3];
    if filter_author.len() > 0 && contains(author, filter_author) {
        let i = choose|i: int| occurs_at(author, filter_author, i);
        assert(author.subrange(i, i + filter_author.len()) == filter_author);
    }
    if filter_author.len() > 0 && (exists|i: int|
        0 <= i && i + filter_author.len() <= author.len() && #[trigger] author.subrange(
            i,
            i + filter_author.len(),
        ) == filter_author) {
        let i = choose|i: int|
            0 <= i && i + filter_author.len() <= author.len() && #[trigger] author.subrange(
                i,
                i + filter_author.len(),
            ) == filter_author;
        assert(occurs_at(author, filter_author, i));
    }
}

} // verus!
