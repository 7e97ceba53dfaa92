//! The staged-changes listing of `status`.
use vstd::prelude::*;
use crate::commit::{pad_right, push_padded};
use crate::text::{chars_of, push_str, string_from_range, string_of};
use crate::ui::Palette;

verus! {

/// How many bytes UTF-8 uses for a character.
pub open spec fn utf8_width(c: char) -> nat {
    if (c as u32) < 0x80 {
        1
    } else if (c as u32) < 0x800 {
        2
    } else if (c as u32) < 0x10000 {
        3
    } else {
        4
    }
}

/// The UTF-8 length of a text, in bytes.
pub open spec fn byte_len(s: Seq<char>) -> nat
    decreases s.len(),
{
    if s.len() == 0 {
        0
    } else {
        byte_len(s.drop_last()) + utf8_width(s.last())
    }
}

/// A porcelain line can be cut after its status letter and after its third
/// byte: it is shorter than four bytes, or its first character is one byte
/// and its third byte ends a character.
pub open spec fn well_cut(s: Seq<char>) -> bool {
    byte_len(s) < 4 || (utf8_width(s[0]) == 1 && (utf8_width(s[1]) == 2 || (utf8_width(s[1]) == 1
        && utf8_width(s[2]) == 1)))
}

/// The path part of a porcelain line: what follows its first three bytes.
pub open spec fn status_path(s: Seq<char>) -> Seq<char> {
    if utf8_width(s[1]) == 2 {
        s.skip(2)
    } else {
        s.skip(3)
    }
}

/// The row printed for a staged file, by its status letter.
pub open spec fn status_row(x: char, path: Seq<char>, p: &Palette) -> Option<Seq<char>> {
    let (glyph, color, word) = if x == 'A' {
        ("+"@, p.green@, "added"@)
    } else if x == 'M' {
        ("~"@, p.blue@, "modified"@)
    } else if x == 'D' {
        ("-"@, p.red@, "deleted"@)
    } else if x == 'R' {
        ("»"@, p.yellow@, "renamed"@)
    } else {
        ("»"@, p.yellow@, "copied"@)
    };
    if x == 'A' || x == 'M' || x == 'D' || x == 'R' || x == 'C' {
        Some("  "@ + color + glyph + p.reset@ + "  "@ + pad_right(path, 40) + "  "@ + p.muted@ + word
            + p.reset@ + "\n"@)
    } else {
        None
    }
}

/// What `status` prints for one porcelain line: nothing for a line shorter
/// than four bytes or with another status letter.
pub open spec fn status_entry_text(line: Seq<char>, p: &Palette) -> Option<Seq<char>> {
    if byte_len(line) < 4 {
        None
    } else {
        status_row(line[0], status_path(line), p)
    }
}

fn width(c: char) -> (w: usize)
    ensures
        w == utf8_width(c),
{
    let u = c as u32;
    if u < 0x80 {
        1
    } else if u < 0x800 {
        2
    } else if u < 0x10000 {
        3
    } else {
        4
    }
}

proof fn lemma_byte_len_prefix(s: Seq<char>, i: int)
    requires
        0 <= i <= s.len(),
    ensures
        byte_len(s.take(i)) <= byte_len(s),
    decreases s.len() - i,
{
    if i < s.len() {
        lemma_byte_len_prefix(s, i + 1);
        assert(s.take(i + 1).drop_last() == s.take(i));
    } else {
        assert(s.take(i) == s);
    }
}

proof fn lemma_byte_len_short(s: Seq<char>)
    ensures
        s.len() == 0 ==> byte_len(s) == 0,
        s.len() == 1 ==> byte_len(s) == utf8_width(s[0]),
        s.len() == 2 ==> byte_len(s) == utf8_width(s[0]) + utf8_width(s[1]),
{
    if s.len() == 1 {
        assert(s.drop_last() =~= Seq::<char>::empty());
        assert(byte_len(s.drop_last()) == 0);
        assert(byte_len(s) == byte_len(s.drop_last()) + utf8_width(s.last()));
    }
    if s.len() == 2 {
        let d = s.drop_last();
        assert(d.drop_last() =~= Seq::<char>::empty());
        assert(byte_len(d.drop_last()) == 0);
        assert(d.last() == s[0]);
        assert(byte_len(d) == byte_len(d.drop_last()) + utf8_width(d.last()));
        assert(byte_len(s) == byte_len(d) + utf8_width(s.last()));
    }
}

/// Whether the text is at least four bytes long in UTF-8.
fn at_least_four_bytes(v: &Vec<char>) -> (r: bool)
    ensures
        r == (byte_len(v@) >= 4),
{
    let mut acc: usize = 0;
    let mut i: usize = 0;
    assert(v@.take(0) =~= Seq::<char>::empty());
    while i < v.len()
        invariant
            i <= v@.len(),
            acc == byte_len(v@.take(i as int)),
            acc < 4,
        decreases v.len() - i,
    {
        assert(v@.take(i + 1).drop_last() == v@.take(i as int));
        acc = acc + width(v[i]);
        i += 1;
        if acc >= 4 {
            proof {
                lemma_byte_len_prefix(v@, i as int);
            }
            return true;
        }
    }
    assert(v@.take(i as int) == v@);
    false
}

/// Render one line of `git status --porcelain` as `status` prints it.
pub fn status_entry(line: &str, p: &Palette) -> (r: Option<String>)
    requires
        well_cut(line@),
    ensures
        match r {
            Some(t) => status_entry_text(line@, p) == Some(t@),
            None => status_entry_text(line@, p) is None,
        },
{
    let v = chars_of(line);
    if !at_least_four_bytes(&v) {
        return None;
    }
    proof {
        lemma_byte_len_short(v@);
    }
    let x = v[0];
    let cut = if width(v[1]) == 2 { 2 } else { 3 };
    let path = string_from_range(&v, cut, v.len());
    assert(v@.subrange(cut as int, v@.len() as int) == status_path(line@));
    let (glyph, color, word) = if x == 'A' {
        ("+", p.green, "added")
    } else if x == 'M' {
        ("~", p.blue, "modified")
    } else if x == 'D' {
        ("-", p.red, "deleted")
    } else if x == 'R' {
        ("»", p.yellow, "renamed")
    } else if x == 'C' {
        ("»", p.yellow, "copied")
    } else {
        return None;
    };
    let mut s = string_of("  ");
    push_str(&mut s, color);
    push_str(&mut s, glyph);
    push_str(&mut s, p.reset);
    push_str(&mut s, "  ");
    push_padded(&mut s, path.as_str(), 40);
    push_str(&mut s, "  ");
    push_str(&mut s, p.muted);
    push_str(&mut s, word);
    push_str(&mut s, p.reset);
    push_str(&mut s, "\n");
    Some(s)
}

/// Whether `status_entry` may be given the line (see [`well_cut`]).
pub fn can_cut(line: &str) -> (r: bool)
    ensures
        r == well_cut(line@),
{
    let v = chars_of(line);
    if !at_least_four_bytes(&v) {
        return true;
    }
    proof {
        lemma_byte_len_short(v@);
    }
    if width(v[0]) != 1 {
        return false;
    }
    if width(v[1]) == 2 {
        return true;
    }
    if width(v[1]) != 1 {
        return false;
    }
    width(v[2]) == 1
}

} // verus!
