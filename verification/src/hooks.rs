//! Git hook files: the managed snippets and the marker-block edits that
//! install and remove them while keeping any other content of the file.
use vstd::prelude::*;
use crate::text::{
    chars_of, ends_line, first_of, lemma_first_of_bounds, lemma_lines_concat, lemma_lines_single,
    lines, lines_of, plain_line, push_str, starts_with, str_eq, str_starts_with, string_of,
    strip_cr, trim_end, trim_of, trim_start,
};

verus! {

/// What an install or removal did to a hook file.
#[derive(Debug, PartialEq, Eq, Structural)]
pub enum Outcome {
    Created,
    Appended,
    Updated,
    Removed,
    RemovedFile,
    NoOp,
}

// ---------------------------------------------------------------------------
// The snippets
// ---------------------------------------------------------------------------

/// Text made of the given lines, each followed by `\n`.
pub open spec fn block_of(ls: Seq<Seq<char>>) -> Seq<char>
    decreases ls.len(),
{
    if ls.len() == 0 {
        seq![]
    } else {
        block_of(ls.drop_last()) + ls.last() + "\n"@
    }
}

/// The lines of the `prepare-commit-msg` block.
pub open spec fn prepare_lines() -> Seq<Seq<char>> {
    seq![
        "# >>> cmt \u{2014} Conventional Commits CLI"@,
        "[ -n \"${2:-}\" ] && exit 0"@,
        "_cmt_bin=\"\""@,
        "for _p in \"./node_modules/.bin/cmt\" \"$HOME/.local/bin/cmt\" \"/usr/local/bin/cmt\" \"/opt/homebrew/bin/cmt\"; do"@,
        "  [ -x \"$_p\" ] && { _cmt_bin=\"$_p\"; break; }"@,
        "done"@,
        "[ -z \"$_cmt_bin\" ] && _cmt_bin=$(command -v cmt 2>/dev/null)"@,
        "[ -n \"$_cmt_bin\" ] && { \"$_cmt_bin\" commit --write-only > \"$1\"; exit 0; }"@,
        "exit 0"@,
        "# <<< cmt"@,
    ]
}

/// The lines of the `commit-msg` (lint) block.
pub open spec fn lint_lines() -> Seq<Seq<char>> {
    seq![
        "# >>> cmt-lint \u{2014} Conventional Commits CLI"@,
        "_cmt_bin=\"\""@,
        "for _p in \"./node_modules/.bin/cmt\" \"$HOME/.local/bin/cmt\" \"/usr/local/bin/cmt\" \"/opt/homebrew/bin/cmt\"; do"@,
        "  [ -x \"$_p\" ] && { _cmt_bin=\"$_p\"; break; }"@,
        "done"@,
        "[ -z \"$_cmt_bin\" ] && _cmt_bin=$(command -v cmt 2>/dev/null)"@,
        "[ -n \"$_cmt_bin\" ] && { \"$_cmt_bin\" lint \"$1\"; exit $?; }"@,
        "exit 0"@,
        "# <<< cmt-lint"@,
    ]
}

/// The text of the given lines, each followed by `\n`.
fn block_from(ls: &Vec<&str>) -> (s: String)
    ensures
        s@ == block_of(ls@.map_values(|l: &str| l@)),
{
    let ghost all = ls@.map_values(|l: &str| l@);
    let mut s = String::new();
    let mut i: usize = 0;
    while i < ls.len()
        invariant
            i <= ls@.len(),
            all == ls@.map_values(|l: &str| l@),
            s@ == block_of(all.take(i as int)),
        decreases ls.len() - i,
    {
        push_str(&mut s, ls[i]);
        push_str(&mut s, "\n");
        assert(all.take(i + 1).drop_last() == all.take(i as int));
        i += 1;
    }
    assert(all.take(ls@.len() as int) == all);
    s
}

/// The `prepare-commit-msg` block: it runs `cmt commit --write-only` into the
/// message file unless git already supplied a message.
pub fn prepare_snippet() -> (s: String)
    ensures
        s@ == block_of(prepare_lines()),
{
    let ls: Vec<&str> = vec![
        "# >>> cmt \u{2014} Conventional Commits CLI",
        "[ -n \"${2:-}\" ] && exit 0",
        "_cmt_bin=\"\"",
        "for _p in \"./node_modules/.bin/cmt\" \"$HOME/.local/bin/cmt\" \"/usr/local/bin/cmt\" \"/opt/homebrew/bin/cmt\"; do",
        "  [ -x \"$_p\" ] && { _cmt_bin=\"$_p\"; break; }",
        "done",
        "[ -z \"$_cmt_bin\" ] && _cmt_bin=$(command -v cmt 2>/dev/null)",
        "[ -n \"$_cmt_bin\" ] && { \"$_cmt_bin\" commit --write-only > \"$1\"; exit 0; }",
        "exit 0",
        "# <<< cmt",
    ];
    assert(ls@.map_values(|l: &str| l@) =~= prepare_lines());
    block_from(&ls)
}

/// The `commit-msg` block: it runs `cmt lint` on the message file and exits
/// with its code.
pub fn lint_snippet() -> (s: String)
    ensures
        s@ == block_of(lint_lines()),
{
    let ls: Vec<&str> = vec![
        "# >>> cmt-lint \u{2014} Conventional Commits CLI",
        "_cmt_bin=\"\"",
        "for _p in \"./node_modules/.bin/cmt\" \"$HOME/.local/bin/cmt\" \"/usr/local/bin/cmt\" \"/opt/homebrew/bin/cmt\"; do",
        "  [ -x \"$_p\" ] && { _cmt_bin=\"$_p\"; break; }",
        "done",
        "[ -z \"$_cmt_bin\" ] && _cmt_bin=$(command -v cmt 2>/dev/null)",
        "[ -n \"$_cmt_bin\" ] && { \"$_cmt_bin\" lint \"$1\"; exit $?; }",
        "exit 0",
        "# <<< cmt-lint",
    ];
    assert(ls@.map_values(|l: &str| l@) =~= lint_lines());
    block_from(&ls)
}

// ---------------------------------------------------------------------------
// Marker blocks
// ---------------------------------------------------------------------------

pub open spec fn open_marker(marker: Seq<char>) -> Seq<char> {
    "# >>> "@ + marker
}

pub open spec fn close_marker(marker: Seq<char>) -> Seq<char> {
    "# <<< "@ + marker
}

/// A line that opens a block of `marker`: `# >>> marker`, alone or followed
/// by a space (so that `cmt` does not take a `cmt-lint` block for its own).
pub open spec fn opens_block(l: Seq<char>, marker: Seq<char>) -> bool {
    l == open_marker(marker) || starts_with(l, open_marker(marker) + " "@)
}

/// The kept lines, each followed by `\n`: a line opening a block of `marker`
/// starts a block, which runs through the next line `# <<< marker`.
pub open spec fn strip_lines(ls: Seq<Seq<char>>, marker: Seq<char>, skip: bool) -> Seq<char>
    decreases ls.len(),
{
    if ls.len() == 0 {
        seq![]
    } else {
        let l = ls[0];
        let rest = ls.drop_first();
        if opens_block(l, marker) {
            strip_lines(rest, marker, true)
        } else if skip {
            strip_lines(rest, marker, l != close_marker(marker))
        } else {
            l + "\n"@ + strip_lines(rest, marker, false)
        }
    }
}

/// Some line of `s` opens a block of `marker`.
pub open spec fn has_block(s: Seq<char>, marker: Seq<char>) -> bool {
    exists|i: int| 0 <= i < lines(s).len() && opens_block(#[trigger] lines(s)[i], marker)
}

/// `s` with a final newline added when it is not empty and lacks one.
pub open spec fn line_ended(s: Seq<char>) -> Seq<char> {
    if ends_line(s) {
        s
    } else {
        s + "\n"@
    }
}

/// The content of a hook file with every block of `marker` removed.
pub open spec fn stripped(content: Seq<char>, marker: Seq<char>) -> Seq<char> {
    strip_lines(lines(content), marker, false)
}

fn marker_line(prefix: &str, marker: &str) -> (s: String)
    ensures
        s@ == prefix@ + marker@,
{
    let mut s = string_of(prefix);
    push_str(&mut s, marker);
    s
}

fn open_lines(marker: &str) -> (r: (String, String))
    ensures
        r.0@ == open_marker(marker@),
        r.1@ == open_marker(marker@) + " "@,
{
    let open = marker_line("# >>> ", marker);
    let mut open_sp = marker_line("# >>> ", marker);
    push_str(&mut open_sp, " ");
    (open, open_sp)
}

fn line_opens(line: &str, marker: &str, open: &String, open_sp: &String) -> (r: bool)
    requires
        open@ == open_marker(marker@),
        open_sp@ == open_marker(marker@) + " "@,
    ensures
        r == opens_block(line@, marker@),
{
    str_eq(line, open.as_str()) || str_starts_with(line, open_sp.as_str())
}

/// Whether some line of `s` opens a block of `marker`.
fn has_block_exec(s: &str, marker: &str) -> (r: bool)
    ensures
        r == has_block(s@, marker@),
{
    let (open, open_sp) = open_lines(marker);
    let ls = lines_of(s);
    let mut i: usize = 0;
    while i < ls.len()
        invariant
            i <= ls@.len(),
            ls.deep_view() == lines(s@),
            open@ == open_marker(marker@),
            open_sp@ == open_marker(marker@) + " "@,
            forall|j: int| 0 <= j < i ==> !opens_block(#[trigger] lines(s@)[j], marker@),
        decreases ls.len() - i,
    {
        assert(ls.deep_view()[i as int] == ls@[i as int]@);
        if line_opens(ls[i].as_str(), marker, &open, &open_sp) {
            return true;
        }
        i += 1;
    }
    false
}

/// Remove every block of `marker` (from a line `# >>> marker …` through the
/// line `# <<< marker`) from `content`.
pub fn strip_block(content: &str, marker: &str) -> (out: String)
    ensures
        out@ == stripped(content@, marker@),
{
    let (open, open_sp) = open_lines(marker);
    let close = marker_line("# <<< ", marker);
    let ls = lines_of(content);
    let ghost all = ls.deep_view();
    let mut out = String::new();
    let mut skip = false;
    let mut i: usize = 0;
    assert(all.skip(0) == all);
    while i < ls.len()
        invariant
            i <= ls@.len(),
            all == ls.deep_view(),
            all == lines(content@),
            open@ == open_marker(marker@),
            open_sp@ == open_marker(marker@) + " "@,
            close@ == close_marker(marker@),
            stripped(content@, marker@) == out@ + strip_lines(all.skip(i as int), marker@, skip),
        decreases ls.len() - i,
    {
        let line = &ls[i];
        assert(all.skip(i as int)[0] == line@);
        assert(all.skip(i as int).drop_first() == all.skip(i + 1));
        if line_opens(line.as_str(), marker, &open, &open_sp) {
            skip = true;
        } else if skip {
            if str_eq(line.as_str(), close.as_str()) {
                skip = false;
            }
        } else {
            let ghost before = out@;
            push_str(&mut out, line.as_str());
            push_str(&mut out, "\n");
            assert(out@ + strip_lines(all.skip(i + 1), marker@, false) =~= before + (line@ + "\n"@
                + strip_lines(all.skip(i + 1), marker@, false)));
        }
        i += 1;
    }
    assert(all.skip(i as int) =~= Seq::<Seq<char>>::empty());
    out
}

/// The shebang written at the top of a new hook file.
pub open spec fn shebang() -> Seq<char> {
    "#!/usr/bin/env bash\n"@
}

/// What installing `snippet` under `marker` makes of a hook file whose
/// current content is `existing` (`None`: no file).
pub open spec fn installed(
    existing: Option<Seq<char>>,
    snippet: Seq<char>,
    marker: Seq<char>,
    add_shebang: bool,
) -> (Seq<char>, Outcome) {
    match existing {
        Some(e) => if has_block(e, marker) {
            (stripped(e, marker) + snippet, Outcome::Updated)
        } else {
            (line_ended(e) + snippet, Outcome::Appended)
        },
        None => ((if add_shebang {
            shebang()
        } else {
            seq![]
        }) + snippet, Outcome::Created),
    }
}

/// The new content of a hook file after installing `snippet` under `marker`:
/// an existing block of the marker is replaced; otherwise the snippet is
/// appended, on a line of its own; a missing file is created (with a shebang
/// when asked).
pub fn plan_install(existing: Option<&str>, snippet: &str, marker: &str, add_shebang: bool) -> (r: (
    String,
    Outcome,
))
    ensures
        (r.0@, r.1) == installed(
            match existing {
                Some(e) => Some(e@),
                None => None,
            },
            snippet@,
            marker@,
            add_shebang,
        ),
{
    match existing {
        Some(e) => {
            if has_block_exec(e, marker) {
                let mut base = strip_block(e, marker);
                push_str(&mut base, snippet);
                (base, Outcome::Updated)
            } else {
                let mut combined = string_of(e);
                let v = chars_of(e);
                if v.len() > 0 && v[v.len() - 1] != '\n' {
                    push_str(&mut combined, "\n");
                }
                proof {
                    reveal_strlit("\n");
                }
                assert(combined@ == line_ended(e@));
                push_str(&mut combined, snippet);
                (combined, Outcome::Appended)
            }
        },
        None => {
            let mut content = String::new();
            if add_shebang {
                push_str(&mut content, "#!/usr/bin/env bash\n");
            }
            push_str(&mut content, snippet);
            (content, Outcome::Created)
        },
    }
}

/// A line that is neither blank nor a comment.
pub open spec fn content_line(l: Seq<char>) -> bool {
    let t = trim_start(trim_end(l));
    t.len() > 0 && !starts_with(t, "#"@)
}

/// Some line of `s` is neither blank nor a comment.
pub open spec fn has_content(s: Seq<char>) -> bool {
    exists|i: int| 0 <= i < lines(s).len() && content_line(#[trigger] lines(s)[i])
}

fn has_content_exec(s: &str) -> (r: bool)
    ensures
        r == has_content(s@),
{
    let ls = lines_of(s);
    let mut i: usize = 0;
    while i < ls.len()
        invariant
            i <= ls@.len(),
            ls.deep_view() == lines(s@),
            forall|j: int| 0 <= j < i ==> !content_line(#[trigger] lines(s@)[j]),
        decreases ls.len() - i,
    {
        let t = trim_of(ls[i].as_str());
        let tv = chars_of(t.as_str());
        assert(ls.deep_view()[i as int] == ls@[i as int]@);
        let ghost l = lines(s@)[i as int];
        proof {
            reveal_strlit("#");
            assert("#"@ =~= seq!['#']);
            assert(ls@[i as int]@ == l);
            assert(tv@ == trim_start(trim_end(l)));
            if tv@.len() > 0 {
                assert(tv@.subrange(0, 1) =~= seq![tv@[0]]);
            }
        }
        if tv.len() > 0 && tv[0] != '#' {
            assert(tv@.subrange(0, 1)[0] != "#"@[0]);
            assert(content_line(l));
            return true;
        }
        assert(!content_line(l));
        i += 1;
    }
    false
}

/// What removing the `marker` block makes of a hook file: `NoOp` when there
/// is no file or no block (the outcome's text is then the file unchanged),
/// `Removed` with the remaining text when other content stays, `RemovedFile`
/// when nothing but blank or comment lines would stay.
pub open spec fn removed(existing: Option<Seq<char>>, marker: Seq<char>) -> (Outcome, Seq<char>) {
    match existing {
        None => (Outcome::NoOp, seq![]),
        Some(e) => if !has_block(e, marker) {
            (Outcome::NoOp, e)
        } else if has_content(stripped(e, marker)) {
            (Outcome::Removed, stripped(e, marker))
        } else {
            (Outcome::RemovedFile, seq![])
        },
    }
}

/// Decide how to remove the `marker` block from a hook file whose content is
/// `existing` (`None`: no file). Only a line `# >>> marker`, alone or
/// followed by a space, opens a block, so `cmt` does not match `cmt-lint`.
pub fn plan_remove(existing: Option<&str>, marker: &str) -> (r: (Outcome, String))
    ensures
        (r.0, r.1@) == removed(
            match existing {
                Some(e) => Some(e@),
                None => None,
            },
            marker@,
        ),
{
    match existing {
        None => (Outcome::NoOp, String::new()),
        Some(e) => {
            if !has_block_exec(e, marker) {
                return (Outcome::NoOp, string_of(e));
            }
            let s = strip_block(e, marker);
            if has_content_exec(s.as_str()) {
                (Outcome::Removed, s)
            } else {
                (Outcome::RemovedFile, String::new())
            }
        },
    }
}

// ---------------------------------------------------------------------------
// Laws of installing and removing blocks
// ---------------------------------------------------------------------------

/// The lines of a managed block under `marker`: the first opens it, the last
/// closes it, no line in between closes it, and every line is a plain line.
pub open spec fn block_lines(ls: Seq<Seq<char>>, marker: Seq<char>) -> bool {
    &&& ls.len() >= 1
    &&& opens_block(ls[0], marker)
    &&& ls.last() == close_marker(marker)
    &&& forall|i: int| 0 <= i < ls.len() - 1 ==> ls[i] != close_marker(marker)
    &&& forall|i: int| 0 <= i < ls.len() ==> plain_line(#[trigger] ls[i])
}

/// Plain lines none of which opens a block of `marker`.
pub open spec fn other_lines(ls: Seq<Seq<char>>, marker: Seq<char>) -> bool {
    forall|i: int|
        0 <= i < ls.len() ==> plain_line(#[trigger] ls[i]) && !opens_block(ls[i], marker)
}

/// Text without carriage returns.
pub open spec fn no_cr(s: Seq<char>) -> bool {
    forall|j: int| 0 <= j < s.len() ==> s[j] != '\r'
}

proof fn lemma_block_ends_line(ls: Seq<Seq<char>>)
    ensures
        ends_line(block_of(ls)),
{
    reveal_strlit("\n");
    if ls.len() > 0 {
        let b = block_of(ls);
        assert(b.last() == '\n');
    }
}

proof fn lemma_lines_block(ls: Seq<Seq<char>>)
    requires
        forall|i: int| 0 <= i < ls.len() ==> plain_line(#[trigger] ls[i]),
    ensures
        lines(block_of(ls)) == ls,
    decreases ls.len(),
{
    if ls.len() == 0 {
        assert(lines(block_of(ls)) =~= ls);
    } else {
        let dl = ls.drop_last();
        assert forall|i: int| 0 <= i < dl.len() implies plain_line(#[trigger] dl[i]) by {
            assert(dl[i] == ls[i]);
        }
        lemma_lines_block(dl);
        lemma_block_ends_line(dl);
        assert(plain_line(ls[ls.len() - 1]));
        lemma_lines_single(ls.last());
        assert(block_of(ls) == block_of(dl) + (ls.last() + "\n"@));
        lemma_lines_concat(block_of(dl), ls.last() + "\n"@);
        assert(lines(block_of(ls)) =~= ls);
    }
}

proof fn lemma_block_cons(l: Seq<char>, rest: Seq<Seq<char>>)
    ensures
        block_of(seq![l] + rest) == l + "\n"@ + block_of(rest),
    decreases rest.len(),
{
    if rest.len() == 0 {
        assert(seq![l] + rest =~= seq![l]);
        assert(seq![l].drop_last() =~= Seq::<Seq<char>>::empty());
        assert(block_of(Seq::<Seq<char>>::empty()) == Seq::<char>::empty());
        assert(block_of(rest) == Seq::<char>::empty());
        assert(seq![l].last() == l);
        assert(block_of(seq![l]) == block_of(seq![l].drop_last()) + seq![l].last() + "\n"@);
        assert(block_of(seq![l]) =~= l + "\n"@ + block_of(rest));
    } else {
        lemma_block_cons(l, rest.drop_last());
        assert((seq![l] + rest).drop_last() =~= seq![l] + rest.drop_last());
        assert(block_of(seq![l] + rest) =~= l + "\n"@ + block_of(rest));
    }
}

/// Lines that open no block are kept as they are.
proof fn lemma_strip_plain(ls: Seq<Seq<char>>, marker: Seq<char>, rest: Seq<Seq<char>>)
    requires
        forall|i: int| 0 <= i < ls.len() ==> !opens_block(#[trigger] ls[i], marker),
    ensures
        strip_lines(ls + rest, marker, false) == block_of(ls) + strip_lines(rest, marker, false),
    decreases ls.len(),
{
    if ls.len() == 0 {
        assert(ls + rest =~= rest);
        assert(block_of(ls) + strip_lines(rest, marker, false) =~= strip_lines(rest, marker, false));
    } else {
        let tail = ls.drop_first();
        assert forall|i: int| 0 <= i < tail.len() implies !opens_block(#[trigger] tail[i], marker) by {
            assert(tail[i] == ls[i + 1]);
        }
        lemma_strip_plain(tail, marker, rest);
        assert((ls + rest)[0] == ls[0]);
        assert((ls + rest).drop_first() =~= tail + rest);
        lemma_block_cons(ls[0], tail);
        assert(seq![ls[0]] + tail =~= ls);
        assert(strip_lines(ls + rest, marker, false) =~= block_of(ls) + strip_lines(rest, marker, false));
    }
}

/// Inside a block, lines are dropped up to and including the closing line.
proof fn lemma_strip_skip(ls: Seq<Seq<char>>, marker: Seq<char>, rest: Seq<Seq<char>>)
    requires
        ls.len() >= 1,
        ls.last() == close_marker(marker),
        !opens_block(close_marker(marker), marker),
        forall|i: int| 0 <= i < ls.len() - 1 ==> ls[i] != close_marker(marker),
    ensures
        strip_lines(ls + rest, marker, true) == strip_lines(rest, marker, false),
    decreases ls.len(),
{
    let all = ls + rest;
    assert(all[0] == ls[0]);
    assert(all.drop_first() =~= ls.drop_first() + rest);
    if ls.len() == 1 {
        assert(ls.drop_first() + rest =~= rest);
    } else {
        let tail = ls.drop_first();
        assert forall|i: int| 0 <= i < tail.len() - 1 implies tail[i] != close_marker(marker) by {
            assert(tail[i] == ls[i + 1]);
        }
        assert(tail.last() == ls.last());
        lemma_strip_skip(tail, marker, rest);
    }
}

proof fn lemma_markers_differ(marker: Seq<char>)
    ensures
        !opens_block(close_marker(marker), marker),
{
    reveal_strlit("# >>> ");
    reveal_strlit("# <<< ");
    reveal_strlit(" ");
    let o = open_marker(marker);
    let c = close_marker(marker);
    assert(c[2] != o[2]);
    if starts_with(c, o + " "@) {
        assert(c.subrange(0, o.len() + 1 as int)[2] == (o + " "@)[2]);
    }
}

/// A whole block under `marker`, followed by more lines, strips to the
/// stripping of what follows.
proof fn lemma_strip_block_lines(ls: Seq<Seq<char>>, marker: Seq<char>, rest: Seq<Seq<char>>)
    requires
        block_lines(ls, marker),
    ensures
        strip_lines(ls + rest, marker, false) == strip_lines(rest, marker, false),
{
    let c = close_marker(marker);
    assert(opens_block(ls[0], marker));
    lemma_markers_differ(marker);
    let all = ls + rest;
    assert(all[0] == ls[0]);
    assert(all.drop_first() =~= ls.drop_first() + rest);
    if ls.len() == 1 {
        assert(ls[0] == c);
        assert(false);
    }
    let tail = ls.drop_first();
    assert forall|i: int| 0 <= i < tail.len() - 1 implies tail[i] != c by {
        assert(tail[i] == ls[i + 1]);
    }
    assert(tail.last() == ls.last());
    lemma_strip_skip(tail, marker, rest);
}

/// The text of plain lines that open no block, plus a block: its stripping is
/// the text of those lines.
proof fn lemma_stripped_base_block(bl: Seq<Seq<char>>, sl: Seq<Seq<char>>, marker: Seq<char>)
    requires
        other_lines(bl, marker),
        block_lines(sl, marker),
    ensures
        lines(block_of(bl) + block_of(sl)) == bl + sl,
        stripped(block_of(bl) + block_of(sl), marker) == block_of(bl),
        has_block(block_of(bl) + block_of(sl), marker),
        lines(block_of(bl)) == bl,
        !has_block(block_of(bl), marker),
        ends_line(block_of(bl)),
{
    assert forall|i: int| 0 <= i < bl.len() implies plain_line(#[trigger] bl[i]) by {}
    lemma_lines_block(bl);
    lemma_lines_block(sl);
    lemma_block_ends_line(bl);
    lemma_lines_concat(block_of(bl), block_of(sl));
    assert forall|i: int| 0 <= i < bl.len() implies !opens_block(#[trigger] bl[i], marker) by {}
    lemma_strip_plain(bl, marker, sl);
    lemma_strip_block_lines(sl, marker, Seq::<Seq<char>>::empty());
    assert(sl + Seq::<Seq<char>>::empty() =~= sl);
    assert(strip_lines(Seq::<Seq<char>>::empty(), marker, false) =~= Seq::<char>::empty());
    assert(block_of(bl) + Seq::<char>::empty() =~= block_of(bl));
    let ls = bl + sl;
    assert(ls[bl.len() as int] == sl[0]);
    assert(opens_block(sl[0], marker));
    assert(opens_block(lines(block_of(bl) + block_of(sl))[bl.len() as int], marker));
}

/// The lines that stripping keeps, in order.
pub open spec fn kept_lines(ls: Seq<Seq<char>>, marker: Seq<char>, skip: bool) -> Seq<Seq<char>>
    decreases ls.len(),
{
    if ls.len() == 0 {
        seq![]
    } else {
        let l = ls[0];
        let rest = ls.drop_first();
        if opens_block(l, marker) {
            kept_lines(rest, marker, true)
        } else if skip {
            kept_lines(rest, marker, l != close_marker(marker))
        } else {
            seq![l] + kept_lines(rest, marker, false)
        }
    }
}

proof fn lemma_kept_lines(ls: Seq<Seq<char>>, marker: Seq<char>, skip: bool)
    requires
        forall|i: int| 0 <= i < ls.len() ==> plain_line(#[trigger] ls[i]),
    ensures
        strip_lines(ls, marker, skip) == block_of(kept_lines(ls, marker, skip)),
        other_lines(kept_lines(ls, marker, skip), marker),
    decreases ls.len(),
{
    if ls.len() == 0 {
        assert(block_of(Seq::<Seq<char>>::empty()) == Seq::<char>::empty());
    } else {
        let l = ls[0];
        let rest = ls.drop_first();
        assert forall|i: int| 0 <= i < rest.len() implies plain_line(#[trigger] rest[i]) by {
            assert(rest[i] == ls[i + 1]);
        }
        if opens_block(l, marker) {
            lemma_kept_lines(rest, marker, true);
        } else if skip {
            lemma_kept_lines(rest, marker, l != close_marker(marker));
        } else {
            lemma_kept_lines(rest, marker, false);
            let k = kept_lines(rest, marker, false);
            lemma_block_cons(l, k);
            assert(plain_line(ls[0]));
            assert forall|i: int| 0 <= i < (seq![l] + k).len() implies plain_line(
                #[trigger] (seq![l] + k)[i],
            ) && !opens_block((seq![l] + k)[i], marker) by {
                if i > 0 {
                    assert((seq![l] + k)[i] == k[i - 1]);
                }
            }
        }
    }
}

/// A text without carriage returns is its lines, each followed by a newline
/// (with a final newline added when the text lacks one), and those lines are
/// plain.
pub proof fn lemma_text_lines(e: Seq<char>)
    requires
        no_cr(e),
    ensures
        block_of(lines(e)) == line_ended(e),
        forall|i: int| 0 <= i < lines(e).len() ==> plain_line(#[trigger] lines(e)[i]),
    decreases e.len(),
{
    reveal_strlit("\n");
    if e.len() == 0 {
        assert(lines(e) =~= Seq::<Seq<char>>::empty());
    } else {
        lemma_first_of_bounds(e, '\n');
        let k = first_of(e, '\n') as int;
        if k < e.len() {
            let a = e.take(k);
            let rest = e.skip(k + 1);
            assert(strip_cr(a) == a) by {
                if a.len() > 0 {
                    assert(a.last() == e[k - 1]);
                }
            }
            assert(lines(e) == seq![a] + lines(rest));
            assert forall|j: int| 0 <= j < rest.len() implies rest[j] != '\r' by {
                assert(rest[j] == e[k + 1 + j]);
            }
            lemma_text_lines(rest);
            lemma_block_cons(a, lines(rest));
            assert(plain_line(a));
            assert forall|i: int| 0 <= i < lines(e).len() implies plain_line(#[trigger] lines(e)[i]) by {
                if i > 0 {
                    assert(lines(e)[i] == lines(rest)[i - 1]);
                }
            }
            if rest.len() == 0 {
                assert(e =~= a + "\n"@);
                assert(block_of(lines(rest)) == Seq::<char>::empty());
                assert(block_of(lines(e)) =~= line_ended(e));
            } else {
                assert(rest.last() == e.last());
                assert(e =~= a + "\n"@ + rest);
                assert(block_of(lines(e)) =~= line_ended(e));
            }
        } else {
            assert(lines(e) == seq![e]);
            assert(seq![e].drop_last() =~= Seq::<Seq<char>>::empty());
            assert(block_of(Seq::<Seq<char>>::empty()) == Seq::<char>::empty());
            assert(block_of(seq![e]) =~= e + "\n"@);
            assert(e[e.len() - 1] != '\n');
            assert(plain_line(e));
        }
    }
}

/// Reinstalling a block into a file of other lines followed by the block
/// gives the same content and reports `Updated`.
proof fn lemma_reinstall_on_lines(
    bl: Seq<Seq<char>>,
    sl: Seq<Seq<char>>,
    marker: Seq<char>,
    add_shebang: bool,
)
    requires
        other_lines(bl, marker),
        block_lines(sl, marker),
    ensures
        installed(Some(block_of(bl) + block_of(sl)), block_of(sl), marker, add_shebang) == (
            block_of(bl) + block_of(sl),
            Outcome::Updated,
        ),
{
    lemma_stripped_base_block(bl, sl, marker);
}

/// Installing a block into a file of other lines appends it, and removing it
/// again gives the file back, or deletes a file of blank and comment lines.
proof fn lemma_remove_on_lines(
    bl: Seq<Seq<char>>,
    sl: Seq<Seq<char>>,
    marker: Seq<char>,
    add_shebang: bool,
)
    requires
        other_lines(bl, marker),
        block_lines(sl, marker),
    ensures
        installed(Some(block_of(bl)), block_of(sl), marker, add_shebang) == (
            block_of(bl) + block_of(sl),
            Outcome::Appended,
        ),
        removed(Some(block_of(bl) + block_of(sl)), marker) == (if has_content(block_of(bl)) {
            (Outcome::Removed, block_of(bl))
        } else {
            (Outcome::RemovedFile, Seq::<char>::empty())
        }),
{
    lemma_stripped_base_block(bl, sl, marker);
    if !has_block(block_of(bl), marker) {
        assert(line_ended(block_of(bl)) == block_of(bl));
    }
}

/// Installing the same block twice gives what installing it once gave, and
/// the second install reports `Updated`: re-running `init` never duplicates
/// a block, whatever the hook file held (no file, or a text without carriage
/// returns).
pub proof fn law_reinstall_is_stable(
    existing: Option<Seq<char>>,
    sl: Seq<Seq<char>>,
    marker: Seq<char>,
    add_shebang: bool,
)
    requires
        block_lines(sl, marker),
        existing matches Some(e) ==> no_cr(e),
    ensures
        ({
            let f = installed(existing, block_of(sl), marker, add_shebang).0;
            installed(Some(f), block_of(sl), marker, add_shebang) == (f, Outcome::Updated)
        }),
{
    match existing {
        None => {
            if add_shebang {
                lemma_shebang(marker);
                lemma_reinstall_on_lines(seq![shebang_line()], sl, marker, add_shebang);
            } else {
                let none = Seq::<Seq<char>>::empty();
                assert(block_of(none) == Seq::<char>::empty());
                assert(Seq::<char>::empty() + block_of(sl) =~= block_of(none) + block_of(sl));
                lemma_reinstall_on_lines(none, sl, marker, add_shebang);
            }
        },
        Some(e) => {
            lemma_text_lines(e);
            if has_block(e, marker) {
                lemma_kept_lines(lines(e), marker, false);
                lemma_reinstall_on_lines(kept_lines(lines(e), marker, false), sl, marker, add_shebang);
            } else {
                assert forall|i: int| 0 <= i < lines(e).len() implies plain_line(
                    #[trigger] lines(e)[i],
                ) && !opens_block(lines(e)[i], marker) by {}
                lemma_reinstall_on_lines(lines(e), sl, marker, add_shebang);
            }
        },
    }
}

/// Installing a block into a hook file and removing it again gives the file
/// back, when the file ends with a newline, has no carriage return and holds
/// no block of the marker yet; when the file holds nothing but blank and
/// comment lines, the removal deletes it.
pub proof fn law_remove_undoes_install(
    e: Seq<char>,
    sl: Seq<Seq<char>>,
    marker: Seq<char>,
    add_shebang: bool,
)
    requires
        block_lines(sl, marker),
        no_cr(e),
        ends_line(e),
        !has_block(e, marker),
    ensures
        installed(Some(e), block_of(sl), marker, add_shebang) == (e + block_of(sl), Outcome::Appended),
        removed(Some(installed(Some(e), block_of(sl), marker, add_shebang).0), marker) == (if has_content(e) {
            (Outcome::Removed, e)
        } else {
            (Outcome::RemovedFile, Seq::<char>::empty())
        }),
{
    lemma_text_lines(e);
    assert(line_ended(e) == e);
    assert forall|i: int| 0 <= i < lines(e).len() implies plain_line(#[trigger] lines(e)[i])
        && !opens_block(lines(e)[i], marker) by {}
    lemma_remove_on_lines(lines(e), sl, marker, add_shebang);
}

/// The `prepare-commit-msg` block is a well-formed block under `cmt`.
proof fn lemma_prepare_block()
    ensures
        block_lines(prepare_lines(), "cmt"@),
{
    let ls = prepare_lines();
    reveal_strlit("cmt");
    reveal_strlit(" ");
    reveal_strlit("# >>> ");
    reveal_strlit("# <<< ");
    reveal_strlit("# >>> cmt \u{2014} Conventional Commits CLI");
    reveal_strlit("[ -n \"${2:-}\" ] && exit 0");
    reveal_strlit("_cmt_bin=\"\"");
    reveal_strlit("for _p in \"./node_modules/.bin/cmt\" \"$HOME/.local/bin/cmt\" \"/usr/local/bin/cmt\" \"/opt/homebrew/bin/cmt\"; do");
    reveal_strlit("  [ -x \"$_p\" ] && { _cmt_bin=\"$_p\"; break; }");
    reveal_strlit("done");
    reveal_strlit("[ -z \"$_cmt_bin\" ] && _cmt_bin=$(command -v cmt 2>/dev/null)");
    reveal_strlit("[ -n \"$_cmt_bin\" ] && { \"$_cmt_bin\" commit --write-only > \"$1\"; exit 0; }");
    reveal_strlit("exit 0");
    reveal_strlit("# <<< cmt");
    let c = close_marker("cmt"@);
    assert(c =~= "# <<< cmt"@);
    assert(ls.last() == c);
    assert(ls[0].subrange(0, 10) =~= open_marker("cmt"@) + " "@);
    assert forall|i: int| 0 <= i < ls.len() - 1 implies ls[i] != c by {
        if ls[i].len() == c.len() {
            assert(ls[i][0] != c[0] || ls[i][2] != c[2]);
        }
    }
    assert forall|i: int| 0 <= i < ls.len() implies plain_line(#[trigger] ls[i]) by {
    }
}

/// The `commit-msg` block is a well-formed block under `cmt-lint`.
proof fn lemma_lint_block()
    ensures
        block_lines(lint_lines(), "cmt-lint"@),
{
    let ls = lint_lines();
    reveal_strlit("cmt-lint");
    reveal_strlit(" ");
    reveal_strlit("# >>> ");
    reveal_strlit("# <<< ");
    reveal_strlit("# >>> cmt-lint \u{2014} Conventional Commits CLI");
    reveal_strlit("_cmt_bin=\"\"");
    reveal_strlit("for _p in \"./node_modules/.bin/cmt\" \"$HOME/.local/bin/cmt\" \"/usr/local/bin/cmt\" \"/opt/homebrew/bin/cmt\"; do");
    reveal_strlit("  [ -x \"$_p\" ] && { _cmt_bin=\"$_p\"; break; }");
    reveal_strlit("done");
    reveal_strlit("[ -z \"$_cmt_bin\" ] && _cmt_bin=$(command -v cmt 2>/dev/null)");
    reveal_strlit("[ -n \"$_cmt_bin\" ] && { \"$_cmt_bin\" lint \"$1\"; exit $?; }");
    reveal_strlit("exit 0");
    reveal_strlit("# <<< cmt-lint");
    let c = close_marker("cmt-lint"@);
    assert(c =~= "# <<< cmt-lint"@);
    assert(ls.last() == c);
    assert(ls[0].subrange(0, 15) =~= open_marker("cmt-lint"@) + " "@);
    assert forall|i: int| 0 <= i < ls.len() - 1 implies ls[i] != c by {
        if ls[i].len() == c.len() {
            assert(ls[i][0] != c[0] || ls[i][2] != c[2]);
        }
    }
    assert forall|i: int| 0 <= i < ls.len() implies plain_line(#[trigger] ls[i]) by {
    }
}

/// The shebang line of a new hook file.
pub open spec fn shebang_line() -> Seq<char> {
    "#!/usr/bin/env bash"@
}

proof fn lemma_shebang(marker: Seq<char>)
    ensures
        shebang() == block_of(seq![shebang_line()]),
        other_lines(seq![shebang_line()], marker),
        !has_content(block_of(seq![shebang_line()])),
{
    reveal_strlit("#!/usr/bin/env bash\n");
    reveal_strlit("#!/usr/bin/env bash");
    reveal_strlit("\n");
    reveal_strlit("# >>> ");
    reveal_strlit("#");
    let l = shebang_line();
    let bl = seq![l];
    assert(bl.drop_last() =~= Seq::<Seq<char>>::empty());
    assert(block_of(Seq::<Seq<char>>::empty()) == Seq::<char>::empty());
    assert(block_of(bl) =~= shebang());
    assert(plain_line(l));
    reveal_strlit(" ");
    let o = open_marker(marker);
    assert(l[1] != o[1]);
    if starts_with(l, o + " "@) {
        assert(l.subrange(0, o.len() + 1 as int)[1] == (o + " "@)[1]);
    }
    assert(!opens_block(l, marker));
    assert(other_lines(bl, marker));
    lemma_lines_block(bl);
    assert(trim_end(l) == l);
    assert(trim_start(l) == l);
    assert(l.subrange(0, 1) =~= "#"@);
    assert(!content_line(l));
    assert(lines(block_of(bl)) == bl);
}

/// A freshly created hook file is stable under a second install: installing
/// the block again leaves the file unchanged and reports `Updated`.
pub proof fn law_fresh_install_then_reinstall(sl: Seq<Seq<char>>, marker: Seq<char>)
    requires
        block_lines(sl, marker),
    ensures
        installed(None, block_of(sl), marker, true).0 == shebang() + block_of(sl),
        installed(Some(installed(None, block_of(sl), marker, true).0), block_of(sl), marker, true)
            == (shebang() + block_of(sl), Outcome::Updated),
{
    lemma_shebang(marker);
    lemma_reinstall_on_lines(seq![shebang_line()], sl, marker, true);
}

/// Removing the block from a freshly created hook file deletes the file.
pub proof fn law_fresh_install_then_remove(sl: Seq<Seq<char>>, marker: Seq<char>)
    requires
        block_lines(sl, marker),
    ensures
        removed(Some(installed(None, block_of(sl), marker, true).0), marker) == (
            Outcome::RemovedFile,
            Seq::<char>::empty(),
        ),
{
    lemma_shebang(marker);
    lemma_remove_on_lines(seq![shebang_line()], sl, marker, true);
}

/// The hooks that `init` writes round-trip: a freshly written
/// `prepare-commit-msg` or `commit-msg` hook is left as it is by a second
/// `init` (which reports `Updated`), and `uninstall` deletes the file.
pub proof fn law_init_hooks_round_trip()
    ensures
        ({
            let f = installed(None, block_of(prepare_lines()), "cmt"@, true).0;
            &&& installed(Some(f), block_of(prepare_lines()), "cmt"@, true) == (f, Outcome::Updated)
            &&& removed(Some(f), "cmt"@) == (Outcome::RemovedFile, Seq::<char>::empty())
        }),
        ({
            let f = installed(None, block_of(lint_lines()), "cmt-lint"@, true).0;
            &&& installed(Some(f), block_of(lint_lines()), "cmt-lint"@, true) == (f, Outcome::Updated)
            &&& removed(Some(f), "cmt-lint"@) == (Outcome::RemovedFile, Seq::<char>::empty())
        }),
{
    lemma_prepare_block();
    lemma_lint_block();
    law_fresh_install_then_reinstall(prepare_lines(), "cmt"@);
    law_fresh_install_then_remove(prepare_lines(), "cmt"@);
    law_fresh_install_then_reinstall(lint_lines(), "cmt-lint"@);
    law_fresh_install_then_remove(lint_lines(), "cmt-lint"@);
}

proof fn lemma_cmt_open()
    ensures
        open_marker("cmt"@) =~= seq!['#', ' ', '>', '>', '>', ' ', 'c', 'm', 't'],
{
    reveal_strlit("cmt");
    reveal_strlit("# >>> ");
}

/// A line that differs from `# >>> marker` at index `k` (or has no space
/// there, just after it) does not open a block of `marker`.
proof fn lemma_not_opening(l: Seq<char>, marker: Seq<char>, k: int)
    requires
        0 <= k <= open_marker(marker).len(),
        k < l.len(),
        k < open_marker(marker).len() ==> l[k] != open_marker(marker)[k],
        k == open_marker(marker).len() ==> l[k] != ' ',
    ensures
        !opens_block(l, marker),
{
    reveal_strlit(" ");
    let o = open_marker(marker);
    if starts_with(l, o + " "@) {
        assert(l.subrange(0, o.len() + 1 as int)[k] == (o + " "@)[k]);
    }
}

/// No line of the lint hook (its shebang and the lint block) opens a `cmt`
/// block.
proof fn lemma_lint_lines_not_cmt()
    ensures
        !opens_block(shebang_line(), "cmt"@),
        forall|i: int| 0 <= i < lint_lines().len() ==> !opens_block(#[trigger] lint_lines()[i], "cmt"@),
{
    let ll = lint_lines();
    lemma_cmt_open();
    assert(!opens_block(shebang_line(), "cmt"@)) by {
        reveal_strlit("#!/usr/bin/env bash");
        lemma_not_opening(shebang_line(), "cmt"@, 1);
    }
    assert(!opens_block(ll[0], "cmt"@)) by {
        reveal_strlit("# >>> cmt-lint \u{2014} Conventional Commits CLI");
        lemma_not_opening(ll[0], "cmt"@, 9);
    }
    assert(!opens_block(ll[1], "cmt"@)) by {
        reveal_strlit("_cmt_bin=\"\"");
        lemma_not_opening(ll[1], "cmt"@, 0);
    }
    assert(!opens_block(ll[2], "cmt"@)) by {
        reveal_strlit("for _p in \"./node_modules/.bin/cmt\" \"$HOME/.local/bin/cmt\" \"/usr/local/bin/cmt\" \"/opt/homebrew/bin/cmt\"; do");
        lemma_not_opening(ll[2], "cmt"@, 0);
    }
    assert(!opens_block(ll[3], "cmt"@)) by {
        reveal_strlit("  [ -x \"$_p\" ] && { _cmt_bin=\"$_p\"; break; }");
        lemma_not_opening(ll[3], "cmt"@, 0);
    }
    assert(!opens_block(ll[4], "cmt"@)) by {
        reveal_strlit("done");
        lemma_not_opening(ll[4], "cmt"@, 0);
    }
    assert(!opens_block(ll[5], "cmt"@)) by {
        reveal_strlit("[ -z \"$_cmt_bin\" ] && _cmt_bin=$(command -v cmt 2>/dev/null)");
        lemma_not_opening(ll[5], "cmt"@, 0);
    }
    assert(!opens_block(ll[6], "cmt"@)) by {
        reveal_strlit("[ -n \"$_cmt_bin\" ] && { \"$_cmt_bin\" lint \"$1\"; exit $?; }");
        lemma_not_opening(ll[6], "cmt"@, 0);
    }
    assert(!opens_block(ll[7], "cmt"@)) by {
        reveal_strlit("exit 0");
        lemma_not_opening(ll[7], "cmt"@, 0);
    }
    assert(!opens_block(ll[8], "cmt"@)) by {
        reveal_strlit("# <<< cmt-lint");
        lemma_not_opening(ll[8], "cmt"@, 2);
    }
}

/// A hook file ending with a newline and holding no block of `marker` gets
/// the snippet appended, and removing `marker` leaves it alone.
proof fn lemma_foreign_hook(e: Seq<char>, snippet: Seq<char>, marker: Seq<char>, add_shebang: bool)
    requires
        ends_line(e),
        forall|i: int| 0 <= i < lines(e).len() ==> !opens_block(#[trigger] lines(e)[i], marker),
    ensures
        installed(Some(e), snippet, marker, add_shebang) == (e + snippet, Outcome::Appended),
        removed(Some(e), marker) == (Outcome::NoOp, e),
{
    assert(!has_block(e, marker));
}

proof fn lemma_text_of_blocks(bl: Seq<Seq<char>>, sl: Seq<Seq<char>>, marker: Seq<char>)
    requires
        other_lines(bl, marker),
        block_lines(sl, marker),
    ensures
        lines(block_of(bl) + block_of(sl)) == bl + sl,
        ends_line(block_of(bl) + block_of(sl)),
{
    reveal_strlit("\n");
    lemma_stripped_base_block(bl, sl, marker);
    let b = block_of(sl);
    assert(b == block_of(sl.drop_last()) + sl.last() + "\n"@);
    assert((block_of(bl) + b).last() == b.last());
}

/// The lint hook's text: its lines are the shebang and the lint block, and
/// it ends with a newline.
proof fn lemma_lint_hook_text()
    ensures
        lines(shebang() + block_of(lint_lines())) == seq![shebang_line()] + lint_lines(),
        ends_line(shebang() + block_of(lint_lines())),
{
    lemma_lint_block();
    lemma_shebang("cmt-lint"@);
    lemma_text_of_blocks(seq![shebang_line()], lint_lines(), "cmt-lint"@);
}

/// A `commit-msg` hook holding only the lint block has no `cmt` block: the
/// `prepare-commit-msg` block is appended after it (the lint block is kept),
/// and removing `cmt` leaves it alone.
pub proof fn law_lint_hook_is_not_a_cmt_block()
    ensures
        ({
            let e = shebang() + block_of(lint_lines());
            &&& installed(Some(e), block_of(prepare_lines()), "cmt"@, true) == (
                e + block_of(prepare_lines()),
                Outcome::Appended,
            )
            &&& removed(Some(e), "cmt"@) == (Outcome::NoOp, e)
        }),
{
    let e = shebang() + block_of(lint_lines());
    lemma_lint_hook_text();
    lemma_lint_lines_not_cmt();
    let ls = seq![shebang_line()] + lint_lines();
    assert forall|i: int| 0 <= i < lines(e).len() implies !opens_block(#[trigger] lines(e)[i], "cmt"@) by {
        if i > 0 {
            assert(ls[i] == lint_lines()[i - 1]);
        }
    }
    lemma_foreign_hook(e, block_of(prepare_lines()), "cmt"@, true);
}

} // verus!
