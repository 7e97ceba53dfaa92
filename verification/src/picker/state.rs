//! The picker's state machine: filtering, cursor movement and scrolling,
//! independent of any terminal.
use vstd::prelude::*;
use crate::text::{ascii_alpha, chars_of, contains, contains_chars, is_alpha, push_char};

verus! {

/// The state of a picker over a list of (possibly colored) labels.
pub struct PickerState {
    /// The labels as shown.
    pub items: Vec<String>,
    /// The labels without escape sequences, used for filtering.
    pub plain: Vec<String>,
    /// The typed filter.
    pub filter: String,
    /// Position of the cursor among the visible items.
    pub cur: usize,
    /// First visible item shown in the scroll window.
    pub top: usize,
    /// Height of the scroll window.
    pub view: usize,
    /// Indices (into `items`) of the items that match the filter, in order.
    pub visible: Vec<usize>,
}

// ---------------------------------------------------------------------------
// Stripping escape sequences
// ---------------------------------------------------------------------------

/// Where an escape sequence whose parameters start at `j` ends: just after
/// its first ASCII letter, or at the end of the text.
pub open spec fn csi_end(s: Seq<char>, j: nat) -> nat
    decreases s.len() - j,
{
    if j >= s.len() {
        s.len()
    } else if is_alpha(s[j as int]) {
        j + 1
    } else {
        csi_end(s, j + 1)
    }
}

/// `s[i..]` without its `ESC [ ... letter` sequences.
pub open spec fn strip_from(s: Seq<char>, i: nat) -> Seq<char>
    decreases s.len() - i,
{
    if i >= s.len() {
        seq![]
    } else if s[i as int] == '\x1b' && i + 1 < s.len() && s[i + 1 as int] == '[' {
        proof {
            lemma_csi_end(s, i + 2);
        }
        strip_from(s, csi_end(s, i + 2))
    } else {
        seq![s[i as int]] + strip_from(s, i + 1)
    }
}

/// `s` without its ANSI escape sequences.
pub open spec fn stripped_ansi(s: Seq<char>) -> Seq<char> {
    strip_from(s, 0)
}

pub proof fn lemma_csi_end(s: Seq<char>, j: nat)
    requires
        j <= s.len(),
    ensures
        j <= csi_end(s, j) <= s.len(),
        csi_end(s, j) > j || j == s.len(),
    decreases s.len() - j,
{
    if j < s.len() && !is_alpha(s[j as int]) {
        lemma_csi_end(s, j + 1);
    }
}

/// `csi_end` computed.
fn csi_end_exec(v: &Vec<char>, j: usize) -> (k: usize)
    requires
        j <= v@.len(),
    ensures
        k == csi_end(v@, j as nat),
{
    let mut k = j;
    while k < v.len() && !ascii_alpha(v[k])
        invariant
            j <= k <= v@.len(),
            csi_end(v@, j as nat) == csi_end(v@, k as nat),
        decreases v.len() - k,
    {
        k += 1;
    }
    if k < v.len() {
        k + 1
    } else {
        k
    }
}

/// Remove ANSI escape sequences (`ESC [` up to and including the first
/// letter) so that labels can be matched against the filter.
fn strip_ansi(s: &str) -> (out: String)
    ensures
        out@ == stripped_ansi(s@),
{
    let v = chars_of(s);
    let mut out = String::new();
    let mut i: usize = 0;
    while i < v.len()
        invariant
            i <= v@.len(),
            v@ == s@,
            stripped_ansi(s@) == out@ + strip_from(v@, i as nat),
        decreases v.len() - i,
    {
        if v[i] == '\x1b' && i + 1 < v.len() && v[i + 1] == '[' {
            proof {
                lemma_csi_end(v@, (i + 2) as nat);
            }
            i = csi_end_exec(&v, i + 2);
        } else {
            push_char(&mut out, v[i]);
            i += 1;
        }
    }
    out
}

// ---------------------------------------------------------------------------
// Filtering
// ---------------------------------------------------------------------------

/// The indices below `n` whose plain label contains the filter (all of them
/// when the filter is empty), in increasing order.
pub open spec fn matching(plain: Seq<Seq<char>>, filter: Seq<char>, n: nat) -> Seq<usize>
    decreases n,
{
    if n == 0 {
        seq![]
    } else {
        matching(plain, filter, (n - 1) as nat) + (if filter.len() == 0 || contains(
            plain[n - 1],
            filter,
        ) {
            seq![(n - 1) as usize]
        } else {
            seq![]
        })
    }
}

/// The cursor after the visible list changed to `nv` items: kept when still
/// inside, moved to the last item otherwise, 0 when nothing is visible.
pub open spec fn clamped(cur: usize, nv: nat) -> usize {
    if nv == 0 {
        0
    } else if cur >= nv {
        (nv - 1) as usize
    } else {
        cur
    }
}

/// Filtering may index the plain labels.
pub open spec fn can_filter(s: &PickerState) -> bool {
    s.filter@.len() == 0 || s.plain@.len() >= s.items@.len()
}

/// The visible list, cursor and scroll position after filtering `s` anew;
/// every other field is unchanged.
pub open spec fn refiltered(old: &PickerState, new: &PickerState) -> bool {
    &&& new.items == old.items
    &&& new.plain == old.plain
    &&& new.view == old.view
    &&& new.visible@ == matching(old.plain.deep_view(), new.filter@, old.items@.len())
    &&& new.cur == clamped(old.cur, new.visible@.len())
    &&& new.top == 0
}

/// The cursor after moving up among `nv` visible items (wrapping).
pub open spec fn cursor_up(cur: usize, nv: nat) -> usize {
    if nv == 0 {
        cur
    } else {
        ((cur + nv - 1) % (nv as int)) as usize
    }
}

/// The cursor after moving down among `nv` visible items (wrapping).
pub open spec fn cursor_down(cur: usize, nv: nat) -> usize {
    if nv == 0 {
        cur
    } else {
        ((cur + 1) % (nv as int)) as usize
    }
}

/// The window's first line after moving up: the last page after wrapping to
/// the bottom, the cursor when it left the window above.
pub open spec fn top_after_up(cur: usize, top: usize, view: usize, nv: nat) -> usize {
    let c = cursor_up(cur, nv);
    if nv == 0 {
        top
    } else if c == nv - 1 {
        if nv > view {
            (nv - view) as usize
        } else {
            0
        }
    } else if c < top {
        c
    } else {
        top
    }
}

/// The window's first line after moving down: scrolled so the cursor is the
/// last line when it left the window below, the top after wrapping.
pub open spec fn top_after_down(cur: usize, top: usize, view: usize, nv: nat) -> usize {
    let c = cursor_down(cur, nv);
    if nv == 0 {
        top
    } else if c >= top + view {
        (c + 1 - view) as usize
    } else if c == 0 {
        0
    } else {
        top
    }
}

/// Build a picker over `items`: no filter, cursor on the first item, a
/// window of seven.
pub fn new(items: Vec<String>) -> (s: PickerState)
    ensures
        s.items == items,
        s.plain@.len() == items@.len(),
        forall|i: int| 0 <= i < items@.len() ==> s.plain@[i]@ == stripped_ansi(#[trigger] items@[i]@),
        s.filter@.len() == 0,
        s.cur == 0,
        s.top == 0,
        s.view == 7,
        s.visible@ == matching(s.plain.deep_view(), seq![], items@.len()),
{
    let mut plain: Vec<String> = Vec::new();
    let mut i: usize = 0;
    while i < items.len()
        invariant
            i <= items@.len(),
            plain@.len() == i,
            forall|j: int| 0 <= j < i ==> plain@[j]@ == stripped_ansi(#[trigger] items@[j]@),
        decreases items.len() - i,
    {
        plain.push(strip_ansi(items[i].as_str()));
        i += 1;
    }
    let mut s = PickerState {
        items,
        plain,
        filter: String::new(),
        cur: 0,
        top: 0,
        view: 7,
        visible: Vec::new(),
    };
    s.rebuild_visible();
    assert(s.filter@ =~= Seq::<char>::empty());
    s
}

impl PickerState {
    /// Recompute the visible items from the filter, clamp the cursor and
    /// reset the scroll position.
    fn rebuild_visible(&mut self)
        requires
            can_filter(old(self)),
        ensures
            final(self).filter == old(self).filter,
            refiltered(old(self), final(self)),
    {
        self.visible.clear();
        let f = chars_of(self.filter.as_str());
        let ghost plain = self.plain.deep_view();
        let mut i: usize = 0;
        while i < self.items.len()
            invariant
                i <= self.items@.len(),
                f@ == self.filter@,
                plain == self.plain.deep_view(),
                self.filter@.len() == 0 || self.plain@.len() >= self.items@.len(),
                self.visible@ == matching(plain, f@, i as nat),
                self.items == old(self).items,
                self.plain == old(self).plain,
                self.filter == old(self).filter,
                self.cur == old(self).cur,
                self.view == old(self).view,
            decreases self.items.len() - i,
        {
            if f.len() == 0 {
                self.visible.push(i);
            } else {
                let p = chars_of(self.plain[i].as_str());
                assert(plain[i as int] == self.plain@[i as int]@);
                if contains_chars(&p, &f) {
                    self.visible.push(i);
                }
            }
            assert(matching(plain, f@, (i + 1) as nat) == matching(plain, f@, i as nat) + (if f@.len()
                == 0 || contains(plain[i as int], f@) {
                seq![i]
            } else {
                seq![]
            }));
            i += 1;
        }
        let nv = self.visible.len();
        if self.cur >= nv && nv > 0 {
            self.cur = nv - 1;
        }
        if nv == 0 {
            self.cur = 0;
        }
        self.top = 0;
    }

    /// Move the cursor up, wrapping from the first item to the last, and
    /// keep it inside the scroll window.
    pub fn move_up(&mut self)
        ensures
            final(self).items == old(self).items,
            final(self).plain == old(self).plain,
            final(self).filter == old(self).filter,
            final(self).view == old(self).view,
            final(self).visible == old(self).visible,
            final(self).cur == cursor_up(old(self).cur, old(self).visible@.len()),
            final(self).top == top_after_up(
                old(self).cur,
                old(self).top,
                old(self).view,
                old(self).visible@.len(),
            ),
    {
        let nv = self.visible.len();
        if nv == 0 {
            return;
        }
        // (cur + nv - 1) % nv, computed without overflow
        let c = if self.cur == 0 {
            nv - 1
        } else {
            (self.cur - 1) % nv
        };
        proof {
            let n = nv as int;
            let k = self.cur as int;
            if k == 0 {
                assert((k + n - 1) % n == n - 1) by (nonlinear_arith)
                    requires
                        k == 0,
                        n > 0,
                ;
            } else {
                vstd::arithmetic::div_mod::lemma_mod_add_multiples_vanish(k - 1, n);
                assert(n + (k - 1) == k + n - 1);
            }
        }
        self.cur = c;
        if self.cur == nv - 1 {
            self.top = nv.saturating_sub(self.view);
        } else if self.cur < self.top {
            self.top = self.cur;
        }
    }

    /// Move the cursor down, wrapping from the last item to the first, and
    /// keep it inside the scroll window.
    pub fn move_down(&mut self)
        ensures
            final(self).items == old(self).items,
            final(self).plain == old(self).plain,
            final(self).filter == old(self).filter,
            final(self).view == old(self).view,
            final(self).visible == old(self).visible,
            final(self).cur == cursor_down(old(self).cur, old(self).visible@.len()),
            final(self).top == top_after_down(
                old(self).cur,
                old(self).top,
                old(self).view,
                old(self).visible@.len(),
            ),
    {
        let nv = self.visible.len();
        if nv == 0 {
            return;
        }
        // (cur + 1) % nv, computed without overflow
        let c = (self.cur % nv + 1) % nv;
        proof {
            let n = nv as int;
            let k = self.cur as int;
            vstd::arithmetic::div_mod::lemma_add_mod_noop(k, 1, n);
            if n > 1 {
                vstd::arithmetic::div_mod::lemma_small_mod(1, nv as nat);
            } else {
                assert(k % 1 == 0 && (k + 1) % 1 == 0 && (k % 1 + 1) % 1 == 0) by (nonlinear_arith);
            }
        }
        self.cur = c;
        if self.cur >= self.top && self.cur - self.top >= self.view {
            self.top = self.cur + 1 - self.view;
        } else if self.cur == 0 {
            self.top = 0;
        }
    }

    /// Add a character to the filter and filter anew.
    pub fn push_filter(&mut self, c: char)
        requires
            old(self).plain@.len() >= old(self).items@.len(),
        ensures
            final(self).filter@ == old(self).filter@.push(c),
            refiltered(old(self), final(self)),
    {
        push_char(&mut self.filter, c);
        self.rebuild_visible();
    }

    /// Remove the last character of the filter (if any) and filter anew.
    pub fn backspace(&mut self)
        requires
            can_filter(old(self)),
        ensures
            final(self).filter@ == (if old(self).filter@.len() > 0 {
                old(self).filter@.drop_last()
            } else {
                old(self).filter@
            }),
            refiltered(old(self), final(self)),
    {
        let f = chars_of(self.filter.as_str());
        if f.len() > 0 {
            self.filter = string_from_range_all_but_last(&f);
        }
        self.rebuild_visible();
    }

    /// Clear the filter, making every item visible again.
    pub fn clear_filter(&mut self)
        ensures
            final(self).filter@.len() == 0,
            refiltered(old(self), final(self)),
    {
        self.filter = String::new();
        self.rebuild_visible();
    }

    /// The original index of the item under the cursor, if any.
    pub fn selected_original(&self) -> (r: Option<usize>)
        ensures
            r == (if self.cur < self.visible@.len() {
                Some(self.visible@[self.cur as int])
            } else {
                None
            }),
    {
        if self.cur < self.visible.len() {
            Some(self.visible[self.cur])
        } else {
            None
        }
    }
}

fn string_from_range_all_but_last(f: &Vec<char>) -> (s: String)
    requires
        f@.len() > 0,
    ensures
        s@ == f@.drop_last(),
{
    let s = crate::text::string_from_range(f, 0, f.len() - 1);
    assert(f@.subrange(0, f@.len() - 1) == f@.drop_last());
    s
}

// ---------------------------------------------------------------------------
// Laws of the picker
// ---------------------------------------------------------------------------

/// The cursor is on a visible item and inside the scroll window.
pub open spec fn cursor_in_window(cur: usize, top: usize, view: usize, nv: nat) -> bool {
    cur < nv && top <= cur && cur < top + view
}

/// Moving up and then down returns the cursor to where it was, and moving
/// down then up as well.
pub proof fn law_up_down_inverse(cur: usize, nv: nat)
    requires
        cur < nv,
        nv < usize::MAX,
    ensures
        cursor_down(cursor_up(cur, nv), nv) == cur,
        cursor_up(cursor_down(cur, nv), nv) == cur,
{
    let n = nv as int;
    let c = cur as int;
    if c == 0 {
        assert((c + n - 1) % n == n - 1) by (nonlinear_arith)
            requires
                c == 0,
                n > 0,
        ;
        assert((n - 1 + 1) % n == 0) by (nonlinear_arith)
            requires
                n > 0,
        ;
    } else {
        assert((c + n - 1) % n == c - 1) by (nonlinear_arith)
            requires
                0 < c < n,
        ;
        assert((c - 1 + 1) % n == c) by (nonlinear_arith)
            requires
                0 < c < n,
        ;
    }
    if c == n - 1 {
        assert((c + 1) % n == 0) by (nonlinear_arith)
            requires
                c == n - 1,
                n > 0,
        ;
        assert((0 + n - 1) % n == n - 1) by (nonlinear_arith)
            requires
                n > 0,
        ;
    } else {
        assert((c + 1) % n == c + 1) by (nonlinear_arith)
            requires
                0 <= c < n - 1,
        ;
        assert((c + 1 + n - 1) % n == c) by (nonlinear_arith)
            requires
                0 <= c < n - 1,
        ;
    }
}

/// Moving up or down keeps the cursor on a visible item and inside a window
/// of at least one line.
pub proof fn law_moves_keep_cursor_in_window(cur: usize, top: usize, view: usize, nv: nat)
    requires
        view >= 1,
        cursor_in_window(cur, top, view, nv),
        top + view < usize::MAX,
        nv < usize::MAX,
    ensures
        cursor_in_window(
            cursor_up(cur, nv),
            top_after_up(cur, top, view, nv),
            view,
            nv,
        ),
        cursor_in_window(
            cursor_down(cur, nv),
            top_after_down(cur, top, view, nv),
            view,
            nv,
        ),
{
    law_up_down_inverse(cur, nv);
    let n = nv as int;
    let c = cur as int;
    if c == 0 {
        assert((c + n - 1) % n == n - 1) by (nonlinear_arith)
            requires
                c == 0,
                n > 0,
        ;
    } else {
        assert((c + n - 1) % n == c - 1) by (nonlinear_arith)
            requires
                0 < c < n,
        ;
    }
    if c == n - 1 {
        assert((c + 1) % n == 0) by (nonlinear_arith)
            requires
                c == n - 1,
                n > 0,
        ;
    } else {
        assert((c + 1) % n == c + 1) by (nonlinear_arith)
            requires
                0 <= c < n - 1,
        ;
    }
}

/// What `matching` holds: increasing indices below `n`, exactly those whose
/// plain label contains the filter (every index when the filter is empty).
pub proof fn lemma_matching(plain: Seq<Seq<char>>, filter: Seq<char>, n: nat)
    requires
        n <= usize::MAX,
    ensures
        forall|k: int| 0 <= k < matching(plain, filter, n).len() ==> #[trigger] matching(plain, filter, n)[k] < n,
        forall|k1: int, k2: int|
            0 <= k1 < k2 < matching(plain, filter, n).len() ==> #[trigger] matching(plain, filter, n)[k1]
                < #[trigger] matching(plain, filter, n)[k2],
        forall|i: usize|
            i < n ==> (matching(plain, filter, n).contains(i) <==> (filter.len() == 0 || contains(
                plain[i as int],
                filter,
            ))),
    decreases n,
{
    if n > 0 {
        let m = (n - 1) as nat;
        lemma_matching(plain, filter, m);
        let prev = matching(plain, filter, m);
        let cur = matching(plain, filter, n);
        let added = filter.len() == 0 || contains(plain[m as int], filter);
        let tail: Seq<usize> = if added {
            seq![m as usize]
        } else {
            seq![]
        };
        assert(cur == prev + tail);
        assert forall|k: int| 0 <= k < prev.len() implies cur[k] == prev[k] by {}
        assert(added ==> cur.len() == prev.len() + 1 && cur[prev.len() as int] == m);
        assert(!added ==> cur.len() == prev.len());
        assert forall|k: int| 0 <= k < cur.len() implies #[trigger] cur[k] < n by {
            if k < prev.len() {
                assert(prev[k] < m);
            }
        }
        assert forall|k1: int, k2: int| 0 <= k1 < k2 < cur.len() implies #[trigger] cur[k1]
            < #[trigger] cur[k2] by {
            if k2 < prev.len() {
                assert(prev[k1] < prev[k2]);
            } else {
                assert(prev[k1] < m);
            }
        }
        assert forall|i: usize| i < n implies (cur.contains(i) <==> (filter.len() == 0
            || contains(plain[i as int], filter))) by {
            if cur.contains(i) {
                let k = choose|k: int| 0 <= k < cur.len() && cur[k] == i;
                if k < prev.len() {
                    assert(prev[k] == i);
                    assert(prev.contains(i));
                    assert(prev[k] < m);
                }
            }
            if i < m && prev.contains(i) {
                let k = choose|k: int| 0 <= k < prev.len() && prev[k] == i;
                assert(cur[k] == i);
            }
            if i == m && added {
                assert(cur[prev.len() as int] == i);
            }
        }
    }
}

/// With an empty filter every item is visible, in order.
pub proof fn law_empty_filter_shows_all(plain: Seq<Seq<char>>, n: nat)
    ensures
        matching(plain, seq![], n) == Seq::new(n, |i: int| i as usize),
    decreases n,
{
    if n > 0 {
        law_empty_filter_shows_all(plain, (n - 1) as nat);
        assert(matching(plain, seq![], n) =~= Seq::new(n, |i: int| i as usize));
    }
}

/// Typing a character into the filter and then erasing it gives back the
/// filter and the visible items it had (the cursor may have been clamped).
pub proof fn law_backspace_undoes_push(s0: &PickerState, s1: &PickerState, s2: &PickerState, c: char)
    requires
        s0.visible@ == matching(s0.plain.deep_view(), s0.filter@, s0.items@.len()),
        s1.filter@ == s0.filter@.push(c),
        refiltered(s0, s1),
        s2.filter@ == s1.filter@.drop_last(),
        refiltered(s1, s2),
    ensures
        s2.filter@ == s0.filter@,
        s2.visible@ == s0.visible@,
        s2.items == s0.items,
        s2.plain == s0.plain,
{
    assert(s0.filter@.push(c).drop_last() =~= s0.filter@);
}

/// The selected item, when there is one, is one of the items, and its plain
/// label contains the filter.
pub proof fn law_selection_matches(s: &PickerState)
    requires
        s.visible@ == matching(s.plain.deep_view(), s.filter@, s.items@.len()),
        s.plain@.len() == s.items@.len(),
        s.items@.len() <= usize::MAX,
        s.cur < s.visible@.len(),
    ensures
        s.visible@[s.cur as int] < s.items@.len(),
        s.filter@.len() == 0 || contains(s.plain@[s.visible@[s.cur as int] as int]@, s.filter@),
{
    let plain = s.plain.deep_view();
    lemma_matching(plain, s.filter@, s.items@.len());
    let i = s.visible@[s.cur as int];
    assert(s.visible@.contains(i));
    assert(plain[i as int] == s.plain@[i as int]@);
}

/// There are never more visible items than items.
pub proof fn lemma_matching_len(plain: Seq<Seq<char>>, filter: Seq<char>, n: nat)
    ensures
        matching(plain, filter, n).len() <= n,
    decreases n,
{
    if n > 0 {
        lemma_matching_len(plain, filter, (n - 1) as nat);
    }
}

} // verus!
