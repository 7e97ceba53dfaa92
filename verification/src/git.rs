//! What the library makes of git's output, and the arguments it passes to git.
//!
//! Running git is left to the caller: each function here takes what the
//! command printed (`None` when it failed).
use vstd::prelude::*;
use crate::text::{
    chars_of, decimal, decimal_string, lines, lines_of, push_owned, push_str, string_from_range,
    string_of, trim_end, trim_end_of,
};

verus! {

/// The repository's top directory from `git rev-parse --show-toplevel`:
/// the output without its trailing white space.
pub fn top_level(out: Option<String>) -> (r: Option<String>)
    ensures
        match out {
            Some(o) => r is Some && r.unwrap()@ == trim_end(o@),
            None => r is None,
        },
{
    match out {
        Some(o) => Some(trim_end_of(o.as_str())),
        None => None,
    }
}

/// The lines of a command's output; none when the command failed.
pub open spec fn output_lines(out: Option<String>) -> Seq<Seq<char>> {
    match out {
        Some(o) => lines(o@),
        None => seq![],
    }
}

fn lines_or_empty(out: Option<String>) -> (r: Vec<String>)
    ensures
        r.deep_view() == output_lines(out),
{
    match out {
        Some(o) => lines_of(o.as_str()),
        None => {
            let r: Vec<String> = Vec::new();
            assert(r.deep_view() =~= Seq::<Seq<char>>::empty());
            r
        },
    }
}

/// The arguments of the `git log` call that feeds the pretty log.
pub open spec fn log_args_spec(limit: nat) -> Seq<Seq<char>> {
    seq!["log"@, "-"@ + decimal(limit), "--format=%H|%h|%ad|%an|%s"@, "--date=short"@]
}

/// The arguments of `git log` for the last `limit` commits, one
/// `hash|short|date|author|subject` line each.
pub fn log_args(limit: usize) -> (r: Vec<String>)
    ensures
        r.deep_view() == log_args_spec(limit as nat),
{
    let mut r: Vec<String> = Vec::new();
    push_owned(&mut r, string_of("log"));
    let mut n = string_of("-");
    let d = decimal_string(limit);
    push_str(&mut n, d.as_str());
    push_owned(&mut r, n);
    push_owned(&mut r, string_of("--format=%H|%h|%ad|%an|%s"));
    push_owned(&mut r, string_of("--date=short"));
    assert(r.deep_view() =~= log_args_spec(limit as nat));
    r
}

/// The lines of `git log` output.
pub fn log_lines(out: Option<String>) -> (r: Vec<String>)
    ensures
        r.deep_view() == output_lines(out),
{
    lines_or_empty(out)
}

/// The lines of `git status --porcelain` output.
pub fn status_porcelain(out: Option<String>) -> (r: Vec<String>)
    ensures
        r.deep_view() == output_lines(out),
{
    lines_or_empty(out)
}

/// `s.trim_end_matches('\n')`: trailing line feeds removed.
pub open spec fn trim_line_feeds(s: Seq<char>) -> Seq<char>
    decreases s.len(),
{
    if s.len() > 0 && s.last() == '\n' {
        trim_line_feeds(s.drop_last())
    } else {
        s
    }
}

/// The last commit's message from `git log -1 --format=%B`, as it is shown
/// and amended: without its trailing line feeds. `None` when git failed
/// (there is no commit yet).
pub fn last_message(out: Option<String>) -> (r: Option<String>)
    ensures
        match out {
            Some(o) => r is Some && r.unwrap()@ == trim_line_feeds(o@),
            None => r is None,
        },
{
    match out {
        Some(o) => {
            let v = chars_of(o.as_str());
            let mut k = v.len();
            assert(v@.take(k as int) =~= v@);
            while k > 0 && v[k - 1] == '\n'
                invariant
                    k <= v@.len(),
                    trim_line_feeds(v@) == trim_line_feeds(v@.take(k as int)),
                decreases k,
            {
                assert(v@.take(k as int).drop_last() =~= v@.take(k - 1));
                k -= 1;
            }
            Some(string_from_range(&v, 0, k))
        },
        None => None,
    }
}

} // verus!
