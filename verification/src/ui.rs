//! Colors, word wrapping and the commit-message box.
use vstd::prelude::*;
use crate::commit::{push_repeat, repeat_char};
use crate::text::{
    chars_of, is_white, join, lines, lines_of, push_str, string_from_range, string_of, white,
};


verus! {

/// The escape sequences used to color output; all empty when color is off.
pub struct Palette {
    pub reset: &'static str,
    pub bold: &'static str,
    pub dim: &'static str,
    pub accent: &'static str,
    pub accent_bold: &'static str,
    pub green: &'static str,
    pub yellow: &'static str,
    pub red: &'static str,
    pub blue: &'static str,
    pub muted: &'static str,
}

/// Every code of the palette is empty.
pub open spec fn is_plain(p: &Palette) -> bool {
    &&& p.reset@ == Seq::<char>::empty()
    &&& p.bold@ == Seq::<char>::empty()
    &&& p.dim@ == Seq::<char>::empty()
    &&& p.accent@ == Seq::<char>::empty()
    &&& p.accent_bold@ == Seq::<char>::empty()
    &&& p.green@ == Seq::<char>::empty()
    &&& p.yellow@ == Seq::<char>::empty()
    &&& p.red@ == Seq::<char>::empty()
    &&& p.blue@ == Seq::<char>::empty()
    &&& p.muted@ == Seq::<char>::empty()
}

/// The palette holds the true-color codes of the colored output.
pub open spec fn is_colored(p: &Palette) -> bool {
    &&& p.reset@ == "\x1b[0m"@
    &&& p.bold@ == "\x1b[1m"@
    &&& p.dim@ == "\x1b[2m"@
    &&& p.accent@ == "\x1b[38;2;86;182;194m"@
    &&& p.accent_bold@ == "\x1b[1;38;2;86;182;194m"@
    &&& p.green@ == "\x1b[38;2;152;195;121m"@
    &&& p.yellow@ == "\x1b[38;2;229;192;123m"@
    &&& p.red@ == "\x1b[38;2;224;108;117m"@
    &&& p.blue@ == "\x1b[38;2;97;175;239m"@
    &&& p.muted@ == "\x1b[38;2;92;99;112m"@
}

impl Palette {
    /// The palette without any color.
    pub fn plain() -> (p: Self)
        ensures
            is_plain(&p),
    {
        proof {
            reveal_strlit("");
            assert(""@ =~= Seq::<char>::empty());
        }
        Palette {
            reset: "",
            bold: "",
            dim: "",
            accent: "",
            accent_bold: "",
            green: "",
            yellow: "",
            red: "",
            blue: "",
            muted: "",
        }
    }

    /// The palette of colored output.
    pub fn colored() -> (p: Self)
        ensures
            is_colored(&p),
    {
        Palette {
            reset: "\x1b[0m",
            bold: "\x1b[1m",
            dim: "\x1b[2m",
            accent: "\x1b[38;2;86;182;194m",
            accent_bold: "\x1b[1;38;2;86;182;194m",
            green: "\x1b[38;2;152;195;121m",
            yellow: "\x1b[38;2;229;192;123m",
            red: "\x1b[38;2;224;108;117m",
            blue: "\x1b[38;2;97;175;239m",
            muted: "\x1b[38;2;92;99;112m",
        }
    }
}

/// The palette to use: plain when `NO_COLOR` is set or standard output is not
/// a terminal, colored otherwise.
pub fn choose_palette(no_color: bool, stdout_is_terminal: bool) -> (p: Palette)
    ensures
        (no_color || !stdout_is_terminal) ==> is_plain(&p),
        (!no_color && stdout_is_terminal) ==> is_colored(&p),
{
    if no_color {
        return Palette::plain();
    }
    if stdout_is_terminal {
        Palette::colored()
    } else {
        Palette::plain()
    }
}

// ---------------------------------------------------------------------------
// Word wrapping
// ---------------------------------------------------------------------------

/// First index at or after `i` holding a white-space character (or the end).
pub open spec fn next_white(s: Seq<char>, i: nat) -> nat
    decreases s.len() - i,
{
    if i >= s.len() || is_white(s[i as int]) {
        i
    } else {
        next_white(s, i + 1)
    }
}

/// First index at or after `i` holding a non-white-space character (or the end).
pub open spec fn next_word(s: Seq<char>, i: nat) -> nat
    decreases s.len() - i,
{
    if i >= s.len() || !is_white(s[i as int]) {
        i
    } else {
        next_word(s, i + 1)
    }
}

pub proof fn lemma_next_white(s: Seq<char>, i: nat)
    ensures
        i <= next_white(s, i),
        i <= s.len() ==> next_white(s, i) <= s.len(),
        forall|j: int| i <= j < next_white(s, i) ==> !is_white(s[j]),
        next_white(s, i) < s.len() ==> is_white(s[next_white(s, i) as int]),
    decreases s.len() - i,
{
    if !(i >= s.len() || is_white(s[i as int])) {
        lemma_next_white(s, i + 1);
    }
}

pub proof fn lemma_next_word(s: Seq<char>, i: nat)
    ensures
        i <= next_word(s, i),
        i <= s.len() ==> next_word(s, i) <= s.len(),
        forall|j: int| i <= j < next_word(s, i) ==> is_white(s[j]),
        next_word(s, i) < s.len() ==> !is_white(s[next_word(s, i) as int]),
    decreases s.len() - i,
{
    if !(i >= s.len() || !is_white(s[i as int])) {
        lemma_next_word(s, i + 1);
    }
}

/// The white-space separated words of `s[i..]` (`str::split_whitespace`).
pub open spec fn words_from(s: Seq<char>, i: nat) -> Seq<Seq<char>>
    decreases s.len() - i,
{
    let j = next_word(s, i);
    if j >= s.len() {
        seq![]
    } else {
        let k = next_white(s, j);
        proof {
            lemma_next_word(s, i);
            lemma_next_white(s, j);
        }
        seq![s.subrange(j as int, k as int)] + words_from(s, k)
    }
}

/// The white-space separated words of `s`.
pub open spec fn words(s: Seq<char>) -> Seq<Seq<char>> {
    words_from(s, 0)
}

/// Greedy filling of lines of at most `width` characters with `ws[i..]`,
/// the current line being `line`.
pub open spec fn wrap_from(ws: Seq<Seq<char>>, i: nat, line: Seq<char>, width: nat) -> Seq<Seq<char>>
    decreases ws.len() - i,
{
    if i >= ws.len() {
        if line.len() > 0 {
            seq![line]
        } else {
            seq![]
        }
    } else {
        let w = ws[i as int];
        if line.len() == 0 {
            wrap_from(ws, i + 1, w, width)
        } else if line.len() + 1 + w.len() <= width {
            wrap_from(ws, i + 1, line + " "@ + w, width)
        } else {
            seq![line] + wrap_from(ws, i + 1, w, width)
        }
    }
}

/// `text` wrapped at `width` characters: words are joined by single spaces
/// while the line stays within the width; a word longer than the width gets a
/// line of its own; text without words gives one empty line.
pub open spec fn wrapped(text: Seq<char>, width: nat) -> Seq<Seq<char>> {
    if words(text).len() == 0 {
        seq![seq![]]
    } else {
        wrap_from(words(text), 0, seq![], width)
    }
}

/// A line of wrapped text is within the width, or it is one word (it holds
/// no white space).
pub open spec fn fits_or_one_word(l: Seq<char>, width: nat) -> bool {
    l.len() <= width || forall|j: int| 0 <= j < l.len() ==> !is_white(#[trigger] l[j])
}

proof fn lemma_words_from_solid(s: Seq<char>, i: nat)
    ensures
        forall|k: int, j: int|
            0 <= k < words_from(s, i).len() && 0 <= j < words_from(s, i)[k].len() ==> !is_white(
                #[trigger] words_from(s, i)[k][j],
            ),
    decreases s.len() - i,
{
    let j0 = next_word(s, i);
    lemma_next_word(s, i);
    if j0 < s.len() {
        let k0 = next_white(s, j0);
        lemma_next_white(s, j0);
        lemma_words_from_solid(s, k0);
        let ws = words_from(s, i);
        let rest = words_from(s, k0);
        assert(ws == seq![s.subrange(j0 as int, k0 as int)] + rest);
        assert forall|k: int, j: int| 0 <= k < ws.len() && 0 <= j < ws[k].len() implies !is_white(
            #[trigger] ws[k][j],
        ) by {
            if k == 0 {
                assert(ws[k][j] == s[j0 + j]);
            } else {
                assert(ws[k] == rest[k - 1]);
            }
        }
    }
}

proof fn lemma_wrap_from_fits(ws: Seq<Seq<char>>, i: nat, line: Seq<char>, width: nat)
    requires
        forall|k: int, j: int|
            0 <= k < ws.len() && 0 <= j < ws[k].len() ==> !is_white(#[trigger] ws[k][j]),
        fits_or_one_word(line, width),
    ensures
        forall|k: int|
            0 <= k < wrap_from(ws, i, line, width).len() ==> fits_or_one_word(
                #[trigger] wrap_from(ws, i, line, width)[k],
                width,
            ),
    decreases ws.len() - i,
{
    reveal_strlit(" ");
    if i >= ws.len() {
        if line.len() > 0 {
            assert(wrap_from(ws, i, line, width) == seq![line]);
        } else {
            assert(wrap_from(ws, i, line, width) == Seq::<Seq<char>>::empty());
        }
    } else {
        let w = ws[i as int];
        assert forall|j: int| 0 <= j < w.len() implies !is_white(#[trigger] w[j]) by {
            assert(!is_white(ws[i as int][j]));
        }
        if line.len() == 0 {
            lemma_wrap_from_fits(ws, i + 1, w, width);
            assert(wrap_from(ws, i, line, width) == wrap_from(ws, i + 1, w, width));
        } else if line.len() + 1 + w.len() <= width {
            assert((line + " "@ + w).len() == line.len() + 1 + w.len());
            lemma_wrap_from_fits(ws, i + 1, line + " "@ + w, width);
            assert(wrap_from(ws, i, line, width) == wrap_from(ws, i + 1, line + " "@ + w, width));
        } else {
            lemma_wrap_from_fits(ws, i + 1, w, width);
            let rest = wrap_from(ws, i + 1, w, width);
            assert forall|k: int| 0 <= k < (seq![line] + rest).len() implies fits_or_one_word(
                #[trigger] (seq![line] + rest)[k],
                width,
            ) by {
                if k > 0 {
                    assert((seq![line] + rest)[k] == rest[k - 1]);
                }
            }
            assert(wrap_from(ws, i, line, width) == seq![line] + rest);
        }
    }
}

/// Wrapping keeps lines within the width: a line longer than `width` is a
/// single word that could not be broken.
pub proof fn law_wrapped_lines_fit(text: Seq<char>, width: nat)
    ensures
        forall|k: int|
            0 <= k < wrapped(text, width).len() ==> fits_or_one_word(
                #[trigger] wrapped(text, width)[k],
                width,
            ),
{
    lemma_words_from_solid(text, 0);
    if words(text).len() > 0 {
        lemma_wrap_from_fits(words(text), 0, seq![], width);
    }
}

proof fn lemma_join_cons(a: Seq<char>, rest: Seq<Seq<char>>, sep: Seq<char>)
    requires
        rest.len() > 0,
    ensures
        join(seq![a] + rest, sep) == a + sep + join(rest, sep),
    decreases rest.len(),
{
    let all = seq![a] + rest;
    assert(all.drop_last() =~= seq![a] + rest.drop_last());
    assert(all.last() == rest.last());
    if rest.len() == 1 {
        assert(seq![a].drop_last() =~= Seq::<Seq<char>>::empty());
        assert(join(seq![a], sep) == a);
    } else {
        lemma_join_cons(a, rest.drop_last(), sep);
    }
}

proof fn lemma_words_from_nonempty(s: Seq<char>, i: nat)
    ensures
        forall|k: int| 0 <= k < words_from(s, i).len() ==> (#[trigger] words_from(s, i)[k]).len() > 0,
    decreases s.len() - i,
{
    let j0 = next_word(s, i);
    lemma_next_word(s, i);
    if j0 < s.len() {
        let k0 = next_white(s, j0);
        lemma_next_white(s, j0);
        lemma_words_from_nonempty(s, k0);
        let ws = words_from(s, i);
        let rest = words_from(s, k0);
        assert(ws == seq![s.subrange(j0 as int, k0 as int)] + rest);
        assert forall|k: int| 0 <= k < ws.len() implies (#[trigger] ws[k]).len() > 0 by {
            if k > 0 {
                assert(ws[k] == rest[k - 1]);
            }
        }
    }
}

/// `line` and then the words `rest`, all joined by single spaces.
pub open spec fn line_then(line: Seq<char>, rest: Seq<Seq<char>>) -> Seq<char> {
    if rest.len() == 0 {
        line
    } else if line.len() == 0 {
        join(rest, " "@)
    } else {
        line + " "@ + join(rest, " "@)
    }
}

proof fn lemma_wrap_from_nonempty(ws: Seq<Seq<char>>, i: nat, line: Seq<char>, width: nat)
    requires
        line.len() > 0,
        forall|k: int| 0 <= k < ws.len() ==> (#[trigger] ws[k]).len() > 0,
    ensures
        wrap_from(ws, i, line, width).len() > 0,
    decreases ws.len() - i,
{
    reveal_strlit(" ");
    if i < ws.len() {
        let w = ws[i as int];
        if line.len() + 1 + w.len() <= width {
            lemma_wrap_from_nonempty(ws, i + 1, line + " "@ + w, width);
        } else {
            lemma_wrap_from_nonempty(ws, i + 1, w, width);
        }
    }
}

proof fn lemma_wrap_from_joins(ws: Seq<Seq<char>>, i: nat, line: Seq<char>, width: nat)
    requires
        i <= ws.len(),
        forall|k: int| 0 <= k < ws.len() ==> (#[trigger] ws[k]).len() > 0,
    ensures
        join(wrap_from(ws, i, line, width), " "@) == line_then(line, ws.skip(i as int)),
    decreases ws.len() - i,
{
    reveal_strlit(" ");
    let sp = " "@;
    if i == ws.len() {
        assert(ws.skip(i as int) =~= Seq::<Seq<char>>::empty());
        if line.len() > 0 {
            assert(wrap_from(ws, i, line, width) == seq![line]);
            assert(seq![line].drop_last() =~= Seq::<Seq<char>>::empty());
        } else {
            assert(wrap_from(ws, i, line, width) == Seq::<Seq<char>>::empty());
        }
    } else {
        let w = ws[i as int];
        let after = ws.skip(i + 1 as int);
        assert(ws.skip(i as int) =~= seq![w] + after);
        if after.len() > 0 {
            lemma_join_cons(w, after, sp);
        } else {
            assert(seq![w] + after =~= seq![w]);
            assert(seq![w].drop_last() =~= Seq::<Seq<char>>::empty());
        }
        assert(join(ws.skip(i as int), sp) == line_then(w, after));
        if line.len() == 0 {
            lemma_wrap_from_joins(ws, i + 1, w, width);
            assert(wrap_from(ws, i, line, width) == wrap_from(ws, i + 1, w, width));
        } else if line.len() + 1 + w.len() <= width {
            lemma_wrap_from_joins(ws, i + 1, line + sp + w, width);
            assert(wrap_from(ws, i, line, width) == wrap_from(ws, i + 1, line + sp + w, width));
            if after.len() > 0 {
                assert(line + sp + w + sp + join(after, sp) =~= line + sp + (w + sp + join(after, sp)));
            }
        } else {
            let r = wrap_from(ws, i + 1, w, width);
            lemma_wrap_from_joins(ws, i + 1, w, width);
            lemma_wrap_from_nonempty(ws, i + 1, w, width);
            assert(wrap_from(ws, i, line, width) == seq![line] + r);
            lemma_join_cons(line, r, sp);
        }
    }
}

/// Wrapping only moves line breaks: the wrapped lines joined by single
/// spaces are the words of the text joined by single spaces.
pub proof fn law_wrapping_keeps_the_words(text: Seq<char>, width: nat)
    requires
        words(text).len() > 0,
    ensures
        join(wrapped(text, width), " "@) == join(words(text), " "@),
{
    lemma_words_from_nonempty(text, 0);
    lemma_wrap_from_joins(words(text), 0, seq![], width);
    assert(words(text).skip(0) =~= words(text));
}

/// The words of `s` (`str::split_whitespace`).
pub fn split_words(s: &str) -> (r: Vec<String>)
    ensures
        r.deep_view() == words(s@),
{
    let v = chars_of(s);
    let mut r: Vec<String> = Vec::new();
    let mut i: usize = 0;
    while i < v.len()
        invariant
            v@ == s@,
            i <= v@.len(),
            words(s@) == r.deep_view() + words_from(v@, i as nat),
        decreases v.len() - i,
    {
        let mut j = i;
        while j < v.len() && white(v[j])
            invariant
                i <= j <= v@.len(),
                next_word(v@, i as nat) == next_word(v@, j as nat),
            decreases v.len() - j,
        {
            j += 1;
        }
        if j == v.len() {
            assert(words_from(v@, i as nat) =~= Seq::<Seq<char>>::empty());
            i = j;
            assert(words_from(v@, i as nat) =~= Seq::<Seq<char>>::empty());
        } else {
            let mut k = j;
            while k < v.len() && !white(v[k])
                invariant
                    j <= k <= v@.len(),
                    next_white(v@, j as nat) == next_white(v@, k as nat),
                decreases v.len() - k,
            {
                k += 1;
            }
            let ghost before = r.deep_view();
            let w = string_from_range(&v, j, k);
            r.push(w);
            assert(r.deep_view() =~= before.push(v@.subrange(j as int, k as int)));
            i = k;
        }
    }
    assert(words_from(v@, i as nat) =~= Seq::<Seq<char>>::empty());
    r
}

/// Wrap `text` at `width` characters.
pub fn wordwrap(text: &str, width: usize) -> (r: Vec<String>)
    ensures
        r.deep_view() == wrapped(text@, width as nat),
{
    let ws = split_words(text);
    if ws.len() == 0 {
        let mut r: Vec<String> = Vec::new();
        r.push(String::new());
        assert(r.deep_view() =~= seq![Seq::<char>::empty()]);
        return r;
    }
    let ghost all = ws.deep_view();
    let mut lines: Vec<String> = Vec::new();
    let mut line = String::new();
    let mut line_len: usize = 0;
    let mut i: usize = 0;
    while i < ws.len()
        invariant
            i <= ws@.len(),
            all == ws.deep_view(),
            line_len == line@.len(),
            wrapped(text@, width as nat) == lines.deep_view() + wrap_from(all, i as nat, line@, width as nat),
        decreases ws.len() - i,
    {
        let w = &ws[i];
        let wl = chars_of(w.as_str()).len();
        assert(all[i as int] == w@);
        if line_len == 0 {
            line = w.clone();
            line_len = wl;
        } else if line_len < width && wl <= width - line_len - 1 {
            proof {
                reveal_strlit(" ");
            }
            push_str(&mut line, " ");
            push_str(&mut line, w.as_str());
            line_len = line_len + 1 + wl;
        } else {
            let ghost before = lines.deep_view();
            let ghost l = line@;
            lines.push(line);
            assert(lines.deep_view() =~= before.push(l));
            assert(before.push(l) + wrap_from(all, (i + 1) as nat, w@, width as nat) =~= before + (
            seq![l] + wrap_from(all, (i + 1) as nat, w@, width as nat)));
            line = w.clone();
            line_len = wl;
        }
        i += 1;
    }
    if line_len > 0 {
        let ghost before = lines.deep_view();
        let ghost l = line@;
        lines.push(line);
        assert(lines.deep_view() =~= before.push(l));
    } else {
        assert(lines.deep_view() + Seq::<Seq<char>>::empty() =~= lines.deep_view());
    }
    lines
}

// ---------------------------------------------------------------------------
// The commit-message box
// ---------------------------------------------------------------------------

/// The length of the longest line (0 when there is none).
pub open spec fn longest(ls: Seq<Seq<char>>) -> nat
    decreases ls.len(),
{
    if ls.len() == 0 {
        0
    } else {
        let m = longest(ls.drop_last());
        if ls.last().len() > m {
            ls.last().len()
        } else {
            m
        }
    }
}

/// The box's outer width for a message and a terminal width: six more than
/// the longest line, at least 50, at most the terminal width less two (but
/// never below 50).
pub open spec fn box_width(msg: Seq<char>, term_cols: nat) -> nat {
    let max_w: nat = if term_cols >= 52 {
        (term_cols - 2) as nat
    } else {
        50
    };
    let w: nat = if longest(lines(msg)) + 6 > 50 {
        longest(lines(msg)) + 6
    } else {
        50
    };
    if w > max_w {
        max_w
    } else {
        w
    }
}

/// One row of the box.
pub open spec fn box_row(text: Seq<char>, content_w: nat, p: &Palette) -> Seq<char> {
    "  "@ + p.muted@ + "│"@ + p.reset@ + "  "@ + p.bold@ + text + repeat_char(
        ' ',
        if content_w > text.len() {
            (content_w - text.len()) as nat
        } else {
            0
        },
    ) + p.reset@ + "  "@ + p.muted@ + "│"@ + p.reset@ + "\n"@
}

pub open spec fn box_rows(rows: Seq<Seq<char>>, content_w: nat, p: &Palette) -> Seq<char>
    decreases rows.len(),
{
    if rows.len() == 0 {
        seq![]
    } else {
        box_rows(rows.drop_last(), content_w, p) + box_row(rows.last(), content_w, p)
    }
}

/// The rows of all the message's lines, each line wrapped at the content width.
pub open spec fn box_body(ls: Seq<Seq<char>>, content_w: nat, p: &Palette) -> Seq<char>
    decreases ls.len(),
{
    if ls.len() == 0 {
        seq![]
    } else {
        box_body(ls.drop_last(), content_w, p) + box_rows(wrapped(ls.last(), content_w), content_w, p)
    }
}

pub open spec fn sat_sub(a: nat, b: nat) -> nat {
    if a > b {
        (a - b) as nat
    } else {
        0
    }
}

/// The box drawn around a commit message.
pub open spec fn boxed(msg: Seq<char>, p: &Palette, term_cols: nat) -> Seq<char> {
    let w = box_width(msg, term_cols);
    "\n  "@ + p.muted@ + "╭─ commit message "@ + repeat_char('─', sat_sub(w, 19)) + "╮"@ + p.reset@
        + "\n"@ + box_body(lines(msg), (w - 6) as nat, p) + "  "@ + p.muted@ + "╰"@ + repeat_char(
        '─',
        sat_sub(w, 2),
    ) + "╯"@ + p.reset@ + "\n"@
}

fn longest_len(ls: &Vec<String>) -> (m: usize)
    ensures
        m == longest(ls.deep_view()),
{
    let mut m: usize = 0;
    let mut i: usize = 0;
    while i < ls.len()
        invariant
            i <= ls@.len(),
            m == longest(ls.deep_view().take(i as int)),
        decreases ls.len() - i,
    {
        let n = chars_of(ls[i].as_str()).len();
        assert(ls.deep_view().take(i + 1).drop_last() == ls.deep_view().take(i as int));
        if n > m {
            m = n;
        }
        i += 1;
    }
    assert(ls.deep_view().take(ls@.len() as int) == ls.deep_view());
    m
}

fn box_row_string(text: &str, content_w: usize, p: &Palette) -> (r: String)
    ensures
        r@ == box_row(text@, content_w as nat, p),
{
    let n = chars_of(text).len();
    let mut r = string_of("  ");
    push_str(&mut r, p.muted);
    push_str(&mut r, "│");
    push_str(&mut r, p.reset);
    push_str(&mut r, "  ");
    push_str(&mut r, p.bold);
    push_str(&mut r, text);
    push_repeat(&mut r, ' ', if content_w > n { content_w - n } else { 0 });
    push_str(&mut r, p.reset);
    push_str(&mut r, "  ");
    push_str(&mut r, p.muted);
    push_str(&mut r, "│");
    push_str(&mut r, p.reset);
    push_str(&mut r, "\n");
    r
}

fn push_rows(out: &mut String, rows: &Vec<String>, content_w: usize, p: &Palette)
    ensures
        final(out)@ == old(out)@ + box_rows(rows.deep_view(), content_w as nat, p),
{
    let ghost start = out@;
    let mut i: usize = 0;
    while i < rows.len()
        invariant
            i <= rows@.len(),
            out@ == start + box_rows(rows.deep_view().take(i as int), content_w as nat, p),
        decreases rows.len() - i,
    {
        let row = box_row_string(rows[i].as_str(), content_w, p);
        push_str(out, row.as_str());
        assert(rows.deep_view().take(i + 1).drop_last() == rows.deep_view().take(i as int));
        assert(rows.deep_view().take(i + 1).last() == rows@[i as int]@);
        i += 1;
    }
    assert(rows.deep_view().take(rows@.len() as int) == rows.deep_view());
}

/// Draw a commit message in a box that fits the terminal width.
pub fn commit_box(msg: &str, p: &Palette, term_cols: usize) -> (out: String)
    requires
        msg@.len() + 6 <= usize::MAX,
    ensures
        out@ == boxed(msg@, p, term_cols as nat),
{
    let max_w = if term_cols >= 52 {
        term_cols - 2
    } else {
        50
    };
    let ls = lines_of(msg);
    let longest_line = longest_len(&ls);
    proof {
        lemma_longest_bound(msg@);
    }
    let mut w = if longest_line + 6 > 50 {
        longest_line + 6
    } else {
        50
    };
    if w > max_w {
        w = max_w;
    }
    let content_w = w - 6;
    let mut out = string_of("\n  ");
    push_str(&mut out, p.muted);
    push_str(&mut out, "╭─ commit message ");
    push_repeat(&mut out, '─', if w > 19 { w - 19 } else { 0 });
    push_str(&mut out, "╮");
    push_str(&mut out, p.reset);
    push_str(&mut out, "\n");
    let ghost head = out@;
    let mut i: usize = 0;
    while i < ls.len()
        invariant
            i <= ls@.len(),
            out@ == head + box_body(ls.deep_view().take(i as int), content_w as nat, p),
        decreases ls.len() - i,
    {
        let rows = wordwrap(ls[i].as_str(), content_w);
        push_rows(&mut out, &rows, content_w, p);
        assert(ls.deep_view().take(i + 1).drop_last() == ls.deep_view().take(i as int));
        assert(ls.deep_view().take(i + 1).last() == ls@[i as int]@);
        i += 1;
    }
    assert(ls.deep_view().take(ls@.len() as int) == ls.deep_view());
    push_str(&mut out, "  ");
    push_str(&mut out, p.muted);
    push_str(&mut out, "╰");
    push_repeat(&mut out, '─', if w > 2 { w - 2 } else { 0 });
    push_str(&mut out, "╯");
    push_str(&mut out, p.reset);
    push_str(&mut out, "\n");
    out
}

/// No line of a text is longer than the text.
proof fn lemma_longest_bound(s: Seq<char>)
    ensures
        longest(lines(s)) <= s.len(),
    decreases s.len(),
{
    if s.len() > 0 {
        crate::text::lemma_first_of_bounds(s, '\n');
        let k = crate::text::first_of(s, '\n');
        if k < s.len() {
            lemma_longest_bound(s.skip(k + 1 as int));
            lemma_longest_cons(crate::text::strip_cr(s.take(k as int)), lines(s.skip(k + 1 as int)));
            assert(lines(s) == seq![crate::text::strip_cr(s.take(k as int))] + lines(
                s.skip(k + 1 as int),
            ));
        } else {
            assert(lines(s) == seq![s]);
            lemma_longest_cons(s, Seq::<Seq<char>>::empty());
            assert(seq![s] + Seq::<Seq<char>>::empty() =~= seq![s]);
            assert(longest(Seq::<Seq<char>>::empty()) == 0);
        }
    }
}

proof fn lemma_longest_cons(l: Seq<char>, rest: Seq<Seq<char>>)
    ensures
        longest(seq![l] + rest) == if l.len() > longest(rest) {
            l.len()
        } else {
            longest(rest)
        },
    decreases rest.len(),
{
    if rest.len() == 0 {
        assert(seq![l] + rest =~= seq![l]);
        assert(seq![l].drop_last() =~= Seq::<Seq<char>>::empty());
        assert(longest(rest) == 0);
        assert(longest(Seq::<Seq<char>>::empty()) == 0);
        assert(longest(seq![l]) == l.len());
    } else {
        lemma_longest_cons(l, rest.drop_last());
        assert((seq![l] + rest).drop_last() =~= seq![l] + rest.drop_last());
        assert((seq![l] + rest).last() == rest.last());
    }
}

} // verus!
