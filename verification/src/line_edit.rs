//! The line editor behind the wizard's prompts: the text being typed, the
//! cursor, and what must be echoed to the terminal after each key.
use vstd::prelude::*;
use crate::text::{
    decimal, decimal_string, push_char, push_range, push_str, string_from_chars, string_of,
    trim_newlines, trim_newlines_of,
};

verus! {

/// A key as the line editor sees it.
pub enum EditKey {
    Char(char),
    Enter,
    Backspace,
    Delete,
    Left,
    Right,
    Home,
    End,
    /// Control-C.
    Interrupt,
    Other,
}

/// What to do after a key.
pub enum EditAction {
    /// Write this to the terminal (possibly nothing) and read the next key.
    Echo(String),
    /// The line is complete.
    Done,
    /// The user interrupted the prompt.
    Abort,
}

/// The text typed so far and the cursor position in it.
pub struct LineEditor {
    pub chars: Vec<char>,
    pub pos: usize,
}

/// `ESC [ n D`: move the terminal cursor `n` columns left.
pub open spec fn cursor_left(n: nat) -> Seq<char> {
    "\x1b["@ + decimal(n) + "D"@
}

/// `ESC [ n C`: move the terminal cursor `n` columns right.
pub open spec fn cursor_right(n: nat) -> Seq<char> {
    "\x1b["@ + decimal(n) + "C"@
}

/// Redraw `tail`, clear the rest of the line, and move back over the tail.
pub open spec fn redraw_tail(tail: Seq<char>) -> Seq<char> {
    tail + "\x1b[K"@ + (if tail.len() > 0 {
        cursor_left(tail.len())
    } else {
        seq![]
    })
}

/// One key applied to the text `cs` with the cursor at `pos`: the new text,
/// the new cursor and what to echo (`None` for Enter and Control-C).
pub open spec fn edit_step(cs: Seq<char>, pos: nat, key: EditKey) -> (Seq<char>, nat, Option<Seq<char>>) {
    match key {
        EditKey::Char(c) => {
            let ncs = cs.insert(pos as int, c);
            let tail = ncs.skip(pos + 1 as int);
            (ncs, pos + 1, Some(if tail.len() == 0 {
                seq![c]
            } else {
                seq![c] + tail + "\x1b[K"@ + cursor_left(tail.len())
            }))
        },
        EditKey::Backspace => if pos > 0 {
            let ncs = cs.remove(pos - 1);
            (ncs, (pos - 1) as nat, Some("\x1b[1D"@ + redraw_tail(ncs.skip(pos - 1))))
        } else {
            (cs, pos, Some(seq![]))
        },
        EditKey::Delete => if pos < cs.len() {
            let ncs = cs.remove(pos as int);
            (ncs, pos, Some(redraw_tail(ncs.skip(pos as int))))
        } else {
            (cs, pos, Some(seq![]))
        },
        EditKey::Left => if pos > 0 {
            (cs, (pos - 1) as nat, Some("\x1b[1D"@))
        } else {
            (cs, pos, Some(seq![]))
        },
        EditKey::Right => if pos < cs.len() {
            (cs, pos + 1, Some("\x1b[1C"@))
        } else {
            (cs, pos, Some(seq![]))
        },
        EditKey::Home => if pos > 0 {
            (cs, 0, Some(cursor_left(pos)))
        } else {
            (cs, pos, Some(seq![]))
        },
        EditKey::End => if pos < cs.len() {
            (cs, cs.len(), Some(cursor_right((cs.len() - pos) as nat)))
        } else {
            (cs, pos, Some(seq![]))
        },
        EditKey::Enter => (cs, pos, None),
        EditKey::Interrupt => (cs, pos, None),
        EditKey::Other => (cs, pos, Some(seq![])),
    }
}

fn push_cursor_move(s: &mut String, n: usize, dir: &str)
    ensures
        final(s)@ == old(s)@ + "\x1b["@ + decimal(n as nat) + dir@,
{
    push_str(s, "\x1b[");
    let d = decimal_string(n);
    push_str(s, d.as_str());
    push_str(s, dir);
}

fn tail_echo(cs: &Vec<char>, from: usize) -> (r: String)
    requires
        from <= cs@.len(),
    ensures
        r@ == redraw_tail(cs@.skip(from as int)),
{
    let mut r = String::new();
    push_range(&mut r, cs, from, cs.len());
    assert(cs@.subrange(from as int, cs@.len() as int) == cs@.skip(from as int));
    push_str(&mut r, "\x1b[K");
    let n = cs.len() - from;
    if n > 0 {
        push_cursor_move(&mut r, n, "D");
    }
    r
}

impl LineEditor {
    /// An empty line.
    pub fn new() -> (e: Self)
        ensures
            e.chars@.len() == 0,
            e.pos == 0,
    {
        LineEditor { chars: Vec::new(), pos: 0 }
    }

    /// Apply one key.
    pub fn step(&mut self, key: EditKey) -> (a: EditAction)
        requires
            old(self).pos <= old(self).chars@.len(),
            old(self).chars@.len() < usize::MAX,
        ensures
            final(self).pos <= final(self).chars@.len(),
            ({
                let (cs, pos, echo) = edit_step(old(self).chars@, old(self).pos as nat, key);
                &&& final(self).chars@ == cs
                &&& final(self).pos == pos
                &&& match a {
                    EditAction::Echo(s) => echo == Some(s@),
                    EditAction::Done => key is Enter && echo is None,
                    EditAction::Abort => key is Interrupt && echo is None,
                }
            }),
    {
        match key {
            EditKey::Char(c) => {
                self.chars.insert(self.pos, c);
                self.pos = self.pos + 1;
                let mut echo = String::new();
                push_char(&mut echo, c);
                if self.pos < self.chars.len() {
                    let t = tail_echo(&self.chars, self.pos);
                    push_str(&mut echo, t.as_str());
                    assert(echo@ =~= seq![c] + self.chars@.skip(self.pos as int) + "\x1b[K"@ + cursor_left(
                        self.chars@.skip(self.pos as int).len(),
                    ));
                } else {
                    assert(self.chars@.skip(self.pos as int).len() == 0);
                    assert(echo@ =~= seq![c]);
                }
                EditAction::Echo(echo)
            },
            EditKey::Backspace => {
                if self.pos > 0 {
                    self.chars.remove(self.pos - 1);
                    self.pos = self.pos - 1;
                    let mut echo = string_of("\x1b[1D");
                    let t = tail_echo(&self.chars, self.pos);
                    push_str(&mut echo, t.as_str());
                    EditAction::Echo(echo)
                } else {
                    EditAction::Echo(String::new())
                }
            },
            EditKey::Delete => {
                if self.pos < self.chars.len() {
                    self.chars.remove(self.pos);
                    EditAction::Echo(tail_echo(&self.chars, self.pos))
                } else {
                    EditAction::Echo(String::new())
                }
            },
            EditKey::Left => {
                if self.pos > 0 {
                    self.pos = self.pos - 1;
                    EditAction::Echo(string_of("\x1b[1D"))
                } else {
                    EditAction::Echo(String::new())
                }
            },
            EditKey::Right => {
                if self.pos < self.chars.len() {
                    self.pos = self.pos + 1;
                    EditAction::Echo(string_of("\x1b[1C"))
                } else {
                    EditAction::Echo(String::new())
                }
            },
            EditKey::Home => {
                if self.pos > 0 {
                    let mut echo = String::new();
                    push_cursor_move(&mut echo, self.pos, "D");
                    assert(echo@ =~= cursor_left(self.pos as nat));
                    self.pos = 0;
                    EditAction::Echo(echo)
                } else {
                    EditAction::Echo(String::new())
                }
            },
            EditKey::End => {
                if self.pos < self.chars.len() {
                    let mut echo = String::new();
                    push_cursor_move(&mut echo, self.chars.len() - self.pos, "C");
                    assert(echo@ =~= cursor_right((self.chars@.len() - self.pos) as nat));
                    self.pos = self.chars.len();
                    EditAction::Echo(echo)
                } else {
                    EditAction::Echo(String::new())
                }
            },
            EditKey::Enter => EditAction::Done,
            EditKey::Interrupt => EditAction::Abort,
            EditKey::Other => EditAction::Echo(String::new()),
        }
    }

    /// The text typed.
    pub fn text(&self) -> (s: String)
        ensures
            s@ == self.chars@,
    {
        string_from_chars(&self.chars)
    }
}

/// A line read in cooked mode, without its line ending
/// (`trim_end_matches(['\n', '\r'])`).
pub fn strip_line_ending(line: &str) -> (s: String)
    ensures
        s@ == trim_newlines(line@),
{
    trim_newlines_of(line)
}

// ---------------------------------------------------------------------------
// Laws of the line editor
// ---------------------------------------------------------------------------

/// Typing at the end of the line appends the character and echoes just it.
pub proof fn law_typing_at_end_appends(cs: Seq<char>, c: char)
    ensures
        edit_step(cs, cs.len(), EditKey::Char(c)) == (cs.push(c), cs.len() + 1, Some(seq![c])),
{
    assert(cs.insert(cs.len() as int, c) =~= cs.push(c));
    assert(cs.push(c).skip(cs.len() + 1 as int) =~= Seq::<char>::empty());
}

/// Backspace right after typing a character removes it and puts the cursor
/// back: the text and the cursor are what they were.
pub proof fn law_backspace_undoes_typing(cs: Seq<char>, pos: nat, c: char)
    requires
        pos <= cs.len(),
    ensures
        ({
            let (cs1, pos1, _) = edit_step(cs, pos, EditKey::Char(c));
            let (cs2, pos2, _) = edit_step(cs1, pos1, EditKey::Backspace);
            cs2 == cs && pos2 == pos
        }),
{
    assert(cs.insert(pos as int, c).remove(pos as int) =~= cs);
}

/// Moving left then right (from a position that can move left) returns the
/// cursor, and neither move changes the text.
pub proof fn law_left_right_inverse(cs: Seq<char>, pos: nat)
    requires
        0 < pos <= cs.len(),
    ensures
        ({
            let (cs1, pos1, _) = edit_step(cs, pos, EditKey::Left);
            let (cs2, pos2, _) = edit_step(cs1, pos1, EditKey::Right);
            cs2 == cs && pos2 == pos
        }),
{
}

} // verus!
