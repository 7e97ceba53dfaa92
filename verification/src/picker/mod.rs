//! The interactive picker: its state machine, the keys it reacts to, and
//! what it draws. Reading keys and writing to the terminal are left to the
//! caller.
pub mod state;

use vstd::prelude::*;
use crate::text::{
    decimal, decimal_string, parse_usize, parsed_usize, push_str, string_of, trim_end, trim_of,
    trim_start,
};
use crate::ui::Palette;
use self::state::{
    cursor_down, cursor_up, lemma_matching_len, refiltered, top_after_down, top_after_up,
    PickerState,
};

verus! {

/// A key as the picker sees it.
pub enum PickerKey {
    Up,
    Down,
    Backspace,
    Esc,
    Enter,
    /// Control-C.
    Interrupt,
    Char(char),
    Other,
}

/// What the picker does after a key.
#[derive(PartialEq, Eq, Structural)]
pub enum PickerAction {
    /// Keep going: redraw and read the next key.
    Continue,
    /// The user confirmed the item under the cursor.
    Confirm,
    /// The user gave up (Control-C, or `q` with an empty filter).
    Abort,
}

/// A picker that the key handling can work on: its labels are filtered, its
/// cursor and window stay within the visible items, and its size leaves room
/// for the cursor arithmetic.
pub open spec fn picker_ok(s: &PickerState) -> bool {
    &&& s.plain@.len() >= s.items@.len()
    &&& s.items@.len() <= usize::MAX / 4
    &&& s.visible@.len() <= s.items@.len()
    &&& s.cur <= s.visible@.len()
    &&& s.top <= s.visible@.len()
    &&& s.view <= 7
}

/// Only the cursor and the window moved.
pub open spec fn moved(old: &PickerState, new: &PickerState) -> bool {
    &&& new.items == old.items
    &&& new.plain == old.plain
    &&& new.filter == old.filter
    &&& new.view == old.view
    &&& new.visible == old.visible
}

/// The effect of one key on the picker and the resulting action: arrows and
/// `k`/`j` move, Backspace and Esc edit the filter, `q` quits when the filter
/// is empty, any other character extends the filter, Enter confirms and
/// Control-C aborts.
pub open spec fn key_effect(old: &PickerState, new: &PickerState, key: PickerKey, action: PickerAction) -> bool {
    let nv = old.visible@.len();
    match key {
        PickerKey::Interrupt => action == PickerAction::Abort && new == old,
        PickerKey::Enter => action == PickerAction::Confirm && new == old,
        PickerKey::Other => action == PickerAction::Continue && new == old,
        PickerKey::Up | PickerKey::Char('k') => action == PickerAction::Continue && moved(old, new)
            && new.cur == cursor_up(old.cur, nv) && new.top == top_after_up(old.cur, old.top, old.view, nv),
        PickerKey::Down | PickerKey::Char('j') => action == PickerAction::Continue && moved(old, new)
            && new.cur == cursor_down(old.cur, nv) && new.top == top_after_down(old.cur, old.top, old.view, nv),
        PickerKey::Backspace => action == PickerAction::Continue && refiltered(old, new)
            && new.filter@ == (if old.filter@.len() > 0 {
            old.filter@.drop_last()
        } else {
            old.filter@
        }),
        PickerKey::Esc => action == PickerAction::Continue && refiltered(old, new) && new.filter@.len() == 0,
        PickerKey::Char(c) => if c == 'q' && old.filter@.len() == 0 {
            action == PickerAction::Abort && new == old
        } else {
            action == PickerAction::Continue && refiltered(old, new) && new.filter@ == old.filter@.push(c)
        },
    }
}

/// Apply one key to the picker.
pub fn picker_step(s: &mut PickerState, key: PickerKey) -> (action: PickerAction)
    requires
        picker_ok(old(s)),
    ensures
        picker_ok(final(s)),
        key_effect(old(s), final(s), key, action),
{
    proof {
        lemma_matching_len(s.plain.deep_view(), s.filter@, s.items@.len());
    }
    match key {
        PickerKey::Interrupt => PickerAction::Abort,
        PickerKey::Enter => PickerAction::Confirm,
        PickerKey::Other => PickerAction::Continue,
        PickerKey::Up => {
            s.move_up();
            PickerAction::Continue
        },
        PickerKey::Down => {
            s.move_down();
            PickerAction::Continue
        },
        PickerKey::Backspace => {
            s.backspace();
            proof {
                lemma_matching_len(s.plain.deep_view(), s.filter@, s.items@.len());
            }
            PickerAction::Continue
        },
        PickerKey::Esc => {
            s.clear_filter();
            proof {
                lemma_matching_len(s.plain.deep_view(), s.filter@, s.items@.len());
            }
            PickerAction::Continue
        },
        PickerKey::Char(c) => {
            if c == 'k' {
                s.move_up();
                PickerAction::Continue
            } else if c == 'j' {
                s.move_down();
                PickerAction::Continue
            } else if c == 'q' && s.filter.as_str().is_empty() {
                PickerAction::Abort
            } else {
                s.push_filter(c);
                proof {
                    lemma_matching_len(s.plain.deep_view(), s.filter@, s.items@.len());
                }
                PickerAction::Continue
            }
        },
    }
}

// ---------------------------------------------------------------------------
// Drawing
// ---------------------------------------------------------------------------

pub open spec fn clear_eol() -> Seq<char> {
    "\x1b[K\r\n"@
}

/// The search line.
pub open spec fn search_line(filter: Seq<char>, p: &Palette) -> Seq<char> {
    if filter.len() == 0 {
        "  "@ + p.muted@ + "/ type to filter"@ + p.reset@ + clear_eol()
    } else {
        "  "@ + p.accent@ + "/ "@ + filter + p.reset@ + clear_eol()
    }
}

/// The line of one visible item.
pub open spec fn item_line(item: Seq<char>, selected: bool, p: &Palette) -> Seq<char> {
    if selected {
        "  "@ + p.accent_bold@ + "❯"@ + p.reset@ + " "@ + item + p.reset@ + clear_eol()
    } else {
        "  "@ + p.muted@ + "·"@ + p.reset@ + " "@ + p.muted@ + item + p.reset@ + clear_eol()
    }
}

/// The lines of the visible items at positions `top..end`.
pub open spec fn item_lines(s: &PickerState, top: nat, end: nat, p: &Palette) -> Seq<char>
    decreases end - top,
{
    if end <= top {
        seq![]
    } else {
        item_lines(s, top, (end - 1) as nat, p) + item_line(
            s.items@[s.visible@[end - 1] as int]@,
            end - 1 == s.cur,
            p,
        )
    }
}

pub open spec fn window_end(s: &PickerState) -> nat {
    if s.top + s.view < s.visible@.len() {
        (s.top + s.view) as nat
    } else {
        s.visible@.len()
    }
}

/// What the picker draws, and how many lines that is: the search line, a
/// hint of the items above the window, the window's items (or "no
/// matches"), and a hint of the items below it.
pub open spec fn drawn(s: &PickerState, p: &Palette) -> (Seq<char>, nat) {
    let nv = s.visible@.len();
    let end = window_end(s);
    let above = if s.top > 0 {
        "  "@ + p.muted@ + "↑ "@ + decimal(s.top as nat) + " more"@ + p.reset@ + clear_eol()
    } else {
        seq![]
    };
    let body = if nv == 0 {
        "  "@ + p.muted@ + "no matches"@ + p.reset@ + clear_eol()
    } else {
        item_lines(s, s.top as nat, end, p)
    };
    let below = if nv > end {
        "  "@ + p.muted@ + "↓ "@ + decimal((nv - end) as nat) + " more"@ + p.reset@ + clear_eol()
    } else {
        clear_eol()
    };
    let count = 2 + (if s.top > 0 {
        1nat
    } else {
        0
    }) + (if nv == 0 {
        1nat
    } else if end > s.top {
        (end - s.top) as nat
    } else {
        0
    });
    (search_line(s.filter@, p) + above + body + below, count)
}

fn item_line_string(item: &str, selected: bool, p: &Palette) -> (r: String)
    ensures
        r@ == item_line(item@, selected, p),
{
    let mut r = string_of("  ");
    if selected {
        push_str(&mut r, p.accent_bold);
        push_str(&mut r, "❯");
        push_str(&mut r, p.reset);
        push_str(&mut r, " ");
    } else {
        push_str(&mut r, p.muted);
        push_str(&mut r, "·");
        push_str(&mut r, p.reset);
        push_str(&mut r, " ");
        push_str(&mut r, p.muted);
    }
    push_str(&mut r, item);
    push_str(&mut r, p.reset);
    push_str(&mut r, "\x1b[K\r\n");
    r
}

fn draw_items(s: &PickerState, p: &Palette, end: usize) -> (r: String)
    requires
        end <= s.visible@.len(),
        forall|i: int| 0 <= i < s.visible@.len() ==> s.visible@[i] < s.items@.len(),
    ensures
        r@ == item_lines(s, s.top as nat, end as nat, p),
{
    let mut out = String::new();
    if end <= s.top {
        return out;
    }
    let mut i = s.top;
    while i < end
        invariant
            s.top <= i <= end,
            end <= s.visible@.len(),
            forall|k: int| 0 <= k < s.visible@.len() ==> s.visible@[k] < s.items@.len(),
            out@ == item_lines(s, s.top as nat, i as nat, p),
        decreases end - i,
    {
        let orig = s.visible[i];
        let line = item_line_string(s.items[orig].as_str(), i == s.cur, p);
        push_str(&mut out, line.as_str());
        i += 1;
    }
    out
}

fn more_line(arrow: &str, count: usize, p: &Palette) -> (r: String)
    ensures
        r@ == "  "@ + p.muted@ + arrow@ + decimal(count as nat) + " more"@ + p.reset@ + clear_eol(),
{
    let mut r = string_of("  ");
    push_str(&mut r, p.muted);
    push_str(&mut r, arrow);
    let t = decimal_string(count);
    push_str(&mut r, t.as_str());
    push_str(&mut r, " more");
    push_str(&mut r, p.reset);
    push_str(&mut r, "\x1b[K\r\n");
    r
}

fn search_line_string(filter: &String, p: &Palette) -> (r: String)
    ensures
        r@ == search_line(filter@, p),
{
    let mut out = string_of("  ");
    if filter.as_str().is_empty() {
        push_str(&mut out, p.muted);
        push_str(&mut out, "/ type to filter");
    } else {
        push_str(&mut out, p.accent);
        push_str(&mut out, "/ ");
        push_str(&mut out, filter.as_str());
    }
    push_str(&mut out, p.reset);
    push_str(&mut out, "\x1b[K\r\n");
    out
}

/// Draw the search line, the scroll hints and the visible window; also give
/// the number of lines drawn.
pub fn draw(s: &PickerState, p: &Palette) -> (r: (String, usize))
    requires
        s.top + s.view <= usize::MAX,
        s.visible@.len() + 3 <= usize::MAX,
        forall|i: int| 0 <= i < s.visible@.len() ==> s.visible@[i] < s.items@.len(),
    ensures
        (r.0@, r.1 as nat) == drawn(s, p),
{
    let mut out = search_line_string(&s.filter, p);
    let mut n: usize = 2;
    let nv = s.visible.len();
    let end = if s.top + s.view < nv {
        s.top + s.view
    } else {
        nv
    };
    if s.top > 0 {
        let l = more_line("↑ ", s.top, p);
        push_str(&mut out, l.as_str());
        n += 1;
    }
    if nv == 0 {
        push_str(&mut out, "  ");
        push_str(&mut out, p.muted);
        push_str(&mut out, "no matches");
        push_str(&mut out, p.reset);
        push_str(&mut out, "\x1b[K\r\n");
        n += 1;
    } else {
        let items = draw_items(s, p, end);
        push_str(&mut out, items.as_str());
        if end > s.top {
            n += end - s.top;
        }
    }
    if nv > end {
        let l = more_line("↓ ", nv - end, p);
        push_str(&mut out, l.as_str());
    } else {
        push_str(&mut out, "\x1b[K\r\n");
    }
    (out, n)
}

/// The line left on screen for the chosen item.
pub open spec fn chosen_line_text(item: Seq<char>, p: &Palette) -> Seq<char> {
    "  "@ + p.accent_bold@ + "❯"@ + p.reset@ + " "@ + p.bold@ + item + p.reset@ + "\r\n"@
}

/// The line left on screen for the chosen item once the picker closes.
pub fn chosen_line(item: &str, p: &Palette) -> (r: String)
    ensures
        r@ == chosen_line_text(item@, p),
{
    let mut r = string_of("  ");
    push_str(&mut r, p.accent_bold);
    push_str(&mut r, "❯");
    push_str(&mut r, p.reset);
    push_str(&mut r, " ");
    push_str(&mut r, p.bold);
    push_str(&mut r, item);
    push_str(&mut r, p.reset);
    push_str(&mut r, "\r\n");
    r
}

// ---------------------------------------------------------------------------
// The numbered menu used when the terminal cannot be put in raw mode
// ---------------------------------------------------------------------------

/// `s` padded with spaces on the left to `width` characters (`{:>width}`).
pub open spec fn pad_left(s: Seq<char>, width: nat) -> Seq<char> {
    if s.len() < width {
        Seq::new((width - s.len()) as nat, |i: int| ' ') + s
    } else {
        s
    }
}

pub open spec fn menu_lines(items: Seq<Seq<char>>) -> Seq<char>
    decreases items.len(),
{
    if items.len() == 0 {
        seq![]
    } else {
        menu_lines(items.drop_last()) + "  "@ + pad_left(decimal(items.len()), 2) + ") "@
            + items.last() + "\n"@
    }
}

/// The numbered menu and the prompt for a choice.
pub open spec fn menu_text(prompt: Seq<char>, items: Seq<Seq<char>>, p: &Palette) -> Seq<char> {
    "\n"@ + p.bold@ + prompt + p.reset@ + "\n"@ + menu_lines(items) + "\nChoice (1-"@ + decimal(
        items.len(),
    ) + "): "@
}

/// The numbered menu shown instead of the picker.
pub fn menu(prompt: &str, items: &Vec<String>, p: &Palette) -> (r: String)
    ensures
        r@ == menu_text(prompt@, items.deep_view(), p),
{
    let mut r = string_of("\n");
    push_str(&mut r, p.bold);
    push_str(&mut r, prompt);
    push_str(&mut r, p.reset);
    push_str(&mut r, "\n");
    let ghost head = r@;
    let mut i: usize = 0;
    while i < items.len()
        invariant
            i <= items@.len(),
            r@ == head + menu_lines(items.deep_view().take(i as int)),
        decreases items.len() - i,
    {
        push_str(&mut r, "  ");
        let num = decimal_string(i + 1);
        let w = crate::text::char_count(num.as_str());
        if w < 2 {
            crate::commit::push_repeat(&mut r, ' ', 2 - w);
        }
        push_str(&mut r, num.as_str());
        push_str(&mut r, ") ");
        push_str(&mut r, items[i].as_str());
        push_str(&mut r, "\n");
        assert(items.deep_view().take(i + 1).drop_last() == items.deep_view().take(i as int));
        assert(items.deep_view().take(i + 1).last() == items@[i as int]@);
        assert(crate::commit::repeat_char(' ', (2 - w) as nat) == Seq::new((2 - w) as nat, |k: int| ' '));
        i += 1;
    }
    assert(items.deep_view().take(items@.len() as int) == items.deep_view());
    push_str(&mut r, "\nChoice (1-");
    let n = decimal_string(items.len());
    push_str(&mut r, n.as_str());
    push_str(&mut r, "): ");
    r
}

/// The item chosen by typing its number: the typed line, trimmed, must be a
/// number from 1 to the number of items; anything else chooses the first.
pub open spec fn menu_choice(line: Seq<char>, n_items: nat) -> nat {
    match parsed_usize(trim_start(trim_end(line))) {
        Some(k) => if 1 <= k <= n_items {
            (k - 1) as nat
        } else {
            0
        },
        None => 0,
    }
}

/// The index chosen at the numbered menu.
pub fn fallback_choice(line: &str, n_items: usize) -> (r: usize)
    ensures
        r as nat == menu_choice(line@, n_items as nat),
{
    let t = trim_of(line);
    match parse_usize(t.as_str()) {
        Some(k) => if 1 <= k && k <= n_items {
            k - 1
        } else {
            0
        },
        None => 0,
    }
}

} // verus!
