//! The editable widget: a text box with an undo history, IME composition,
//! single-line mode and a placeholder.
//!
//! Every textual mutation goes through the history. Byte offsets that come
//! from the layout engine are checked against character boundaries; an edit
//! at an offset that is not one is a silent no-op.
use crate::buffer::{
    blen, boundary, byte_len, bytes, last_char, lemma_boundary_prefix, lemma_bytes_concat,
    lemma_concat_boundary, lemma_empty_bytes, lemma_ends_are_boundaries,
    lemma_newlines_to_spaces_chars, newlines_to_spaces, no_newlines, remove_newlines_inplace,
    replace_range, slice, spaces_for_newlines, splice,
};
use crate::history::{
    piece, recorded, redo_ok, redone, rng, undo_ok, undo_target, undone, TextEditHistory,
};
use crate::selection::{Affinity, Cursor, Selection};
use crate::text_box::{is_boundary, SelectionState, TextBox};
use std::ops::Range;
use vstd::prelude::*;
use vstd::std_specs::iter::IteratorSpec;
use vstd::utf8::{decode_utf8, encode_utf8_decode_utf8};

verus! {

/// How newlines are entered.
#[derive(Clone, Copy, Debug, PartialEq, Eq, Structural)]
pub enum NewlineMode {
    /// Enter inserts a newline.
    Enter,
    /// Shift+Enter inserts a newline.
    ShiftEnter,
    /// The action modifier with Enter inserts a newline.
    CtrlEnter,
    /// No newlines.
    Never,
}

impl Default for NewlineMode {
    /// The default mode, [`NewlineMode::Enter`].
    fn default() -> (r: NewlineMode)
        ensures
            r == NewlineMode::Enter,
    {
        NewlineMode::Enter
    }
}

/// What an event changed.
#[derive(Clone, Copy, Debug, PartialEq, Eq, Structural)]
pub struct TextEventResult {
    pub text_changed: bool,
    pub decorations_changed: bool,
}

impl TextEventResult {
    /// Nothing changed.
    pub fn new() -> (r: TextEventResult)
        ensures
            !r.text_changed && !r.decorations_changed,
    {
        TextEventResult { text_changed: false, decorations_changed: false }
    }
}

/// Blink period of the cursor, in milliseconds.
pub const BLINK_PERIOD_MS: u64 = 500;

/// The bytes of the buffer after replacing `a..b` by `s`, with newlines
/// turned into spaces in single-line mode.
pub open spec fn edited(text: Seq<char>, a: int, b: int, s: Seq<char>, single_line: bool) -> Seq<u8> {
    let spliced = splice(bytes(text), a, b, bytes(s));
    if single_line {
        newlines_to_spaces(spliced)
    } else {
        spliced
    }
}

/// Newlines turned into spaces in single-line mode.
pub open spec fn single_line_fix(b: Seq<u8>, single_line: bool) -> Seq<u8> {
    if single_line {
        newlines_to_spaces(b)
    } else {
        b
    }
}

/// `a..b` cuts `text` at character boundaries and the insertion end fits.
pub open spec fn edit_ok(text: Seq<char>, a: int, b: int, s: Seq<char>) -> bool {
    &&& a <= b
    &&& boundary(text, a)
    &&& boundary(text, b)
    &&& a + blen(s) <= usize::MAX
}

/// The caret after inserting `s` at `a`.
pub open spec fn caret_after(a: int, s: Seq<char>) -> Selection {
    Selection::caret(
        Cursor {
            index: (a + blen(s)) as usize,
            affinity: if s.len() > 0 && s.last() == '\n' {
                Affinity::Downstream
            } else {
                Affinity::Upstream
            },
        },
    )
}

/// The characters of `text` in `a..b`.
pub open spec fn chars_in(text: Seq<char>, a: int, b: int) -> Seq<char> {
    decode_utf8(bytes(text).subrange(a, b))
}

/// The text that edits act on: empty while the placeholder is shown.
pub open spec fn base_text(e: TextEdit) -> Seq<char> {
    if e.showing_placeholder {
        Seq::empty()
    } else {
        e.text_box.text@
    }
}

/// The selection that edits act on: at the start while the placeholder is shown.
pub open spec fn base_sel(e: TextEdit) -> Selection {
    if e.showing_placeholder {
        Selection::zero_spec()
    } else {
        e.text_box.selection.selection
    }
}

/// `new` is `old`, placeholder cleared, with `a..b` replaced by `s` and the
/// edit recorded, where that edit is possible; otherwise only the
/// placeholder is cleared.
pub open spec fn did_replace(old: TextEdit, new: TextEdit, a: int, b: int, s: Seq<char>) -> bool {
    &&& !new.showing_placeholder
    &&& new.compose == old.compose
    &&& new.single_line == old.single_line
    &&& new.placeholder_text == old.placeholder_text
    &&& new.disabled == old.disabled
    &&& new.newline_mode == old.newline_mode
    &&& new.show_cursor == old.show_cursor
    &&& if edit_ok(base_text(old), a, b, s) {
        &&& new.text_bytes() == edited(base_text(old), a, b, s, old.single_line)
        &&& new.history.model() == recorded(
            old.history.model(),
            chars_in(base_text(old), a, b),
            s,
            base_sel(old),
            rng(a, a + blen(s)),
        )
        &&& new.text_box.needs_relayout
    } else {
        &&& new.text_box.text@ == base_text(old)
        &&& new.history == old.history
    }
}

/// `a + b`, or the largest `usize` where the sum does not fit.
pub open spec fn sat_add(a: int, b: int) -> usize {
    if a + b > usize::MAX {
        usize::MAX
    } else {
        (a + b) as usize
    }
}

/// Where a composition starts and what range of the text it replaces.
pub open spec fn compose_target(e: TextEdit) -> (int, int) {
    match e.compose {
        Some(r) => (r.start as int, r.end as int),
        None => (e.sel().start(), e.sel().end()),
    }
}

/// The selection the IME asks for, relative to the preedit start.
pub open spec fn ime_selection(start: int, cursor: Option<(usize, usize)>) -> Selection {
    let c = match cursor {
        Some(c) => c,
        None => (0usize, 0usize),
    };
    Selection {
        anchor: Cursor { index: sat_add(start, c.0 as int), affinity: Affinity::Downstream },
        focus: Cursor { index: sat_add(start, c.1 as int), affinity: Affinity::Downstream },
    }
}

/// The caret where a removed composition started.
pub open spec fn caret_at_compose_start(start: int, len: int) -> Selection {
    if start >= len {
        Selection::caret(Cursor { index: len as usize, affinity: Affinity::Upstream })
    } else {
        Selection::caret(Cursor { index: start as usize, affinity: Affinity::Downstream })
    }
}

/// Where a backspace starts: the cluster's start for a hard line break or an
/// emoji, else the start of the last character before the cluster's end.
pub open spec fn is_prev_char_start(text: Seq<char>, k: int, end: int) -> bool {
    &&& 0 <= k < end
    &&& boundary(text, k)
    &&& forall|j: int| k < j < end ==> !boundary(text, j)
}

/// The cluster before or after the caret, as the layout engine sees it.
#[derive(Debug)]
pub struct Cluster {
    pub range: Range<usize>,
    /// A hard line break or an emoji: deleted whole.
    pub whole: bool,
}

/// `r` cuts `text` at character boundaries.
pub open spec fn cuts_text(text: Seq<char>, r: Range<usize>) -> bool {
    r.start <= r.end && boundary(text, r.start as int) && boundary(text, r.end as int)
}

/// Whether the caret shows at `now` for a blink that started at `start`.
pub open spec fn blink_visible(start: Option<u64>, period: u64, now: u64) -> bool {
    match start {
        Some(s) => {
            let elapsed: int = if now >= s {
                now - s
            } else {
                0
            };
            period == 0 || (elapsed / (period as int)) % 2 == 0
        },
        None => false,
    }
}

/// The next toggle instant after `now`, where it fits in a `u64`.
pub open spec fn next_blink(start: Option<u64>, period: u64, now: u64) -> Option<u64> {
    match start {
        Some(s) => {
            if period == 0 {
                None
            } else {
                let elapsed: int = if now >= s {
                    now - s
                } else {
                    0
                };
                let t = s + (elapsed / (period as int) + 1) * period;
                if t <= u64::MAX {
                    Some(t as u64)
                } else {
                    None
                }
            }
        },
        None => None,
    }
}

/// `a + b`, saturating.
fn sat_add_usize(a: usize, b: usize) -> (r: usize)
    ensures
        r == sat_add(a as int, b as int),
{
    if b > usize::MAX - a {
        usize::MAX
    } else {
        a + b
    }
}

/// The text and composition end after `set_compose` with each of `ts` in
/// turn, the composition starting at `i` and ending at `j`: a step that is
/// not possible leaves both as they were.
pub open spec fn compose_seq(cur: Seq<char>, i: int, j: int, ts: Seq<Seq<char>>, sl: bool) -> (Seq<char>, int)
    decreases ts.len(),
{
    if ts.len() == 0 {
        (cur, j)
    } else if edit_ok(cur, i, j, ts[0]) {
        compose_seq(decode_utf8(edited(cur, i, j, ts[0], sl)), i, i + blen(ts[0]), ts.drop_first(), sl)
    } else {
        compose_seq(cur, i, j, ts.drop_first(), sl)
    }
}

/// Inductive step of [`lemma_compose_round_trip`].
proof fn lemma_compose_seq(p: Seq<char>, y: Seq<char>, s: Seq<char>, ts: Seq<Seq<char>>, sl: bool)
    requires
        blen(p + y + s) <= usize::MAX,
        forall|k: int| 0 <= k < ts.len() ==> blen(p + s) + blen(#[trigger] ts[k]) <= usize::MAX,
        sl ==> no_newlines(bytes(p + s)),
    ensures
        ({
            let (c, j) = compose_seq(p + y + s, blen(p), blen(p) + blen(y), ts, sl);
            exists|z: Seq<char>| c == p + z + s && j == blen(p) + blen(z) && blen(p + z + s) <= usize::MAX
        }),
    decreases ts.len(),
{
    lemma_bytes_concat(p, y);
    lemma_bytes_concat(p + y, s);
    lemma_bytes_concat(p, s);
    if ts.len() == 0 {
        assert(p + y + s == p + y + s);
    } else {
        let t = ts[0];
        let cur = p + y + s;
        let i = blen(p);
        let j = blen(p) + blen(y);
        lemma_concat_boundary(p, y + s);
        assert(p + (y + s) =~= cur);
        lemma_concat_boundary(p + y, s);
        assert(edit_ok(cur, i, j, t));
        let t2 = if sl {
            spaces_for_newlines(t)
        } else {
            t
        };
        lemma_newlines_to_spaces_chars(t);
        assert(bytes(t2).len() == bytes(t).len());
        lemma_bytes_concat(p, t2);
        lemma_bytes_concat(p + t2, s);
        let spliced = splice(bytes(cur), i, j, bytes(t));
        assert(bytes(cur).subrange(0, i) =~= bytes(p));
        assert(bytes(cur).subrange(j, bytes(cur).len() as int) =~= bytes(s));
        if sl {
            assert(bytes(p + s) =~= bytes(p) + bytes(s));
            assert(newlines_to_spaces(spliced) =~= bytes(p + t2 + s)) by {
                let n1 = bytes(p).len() as int;
                let n2 = bytes(t).len() as int;
                assert forall|k: int| 0 <= k < spliced.len() implies #[trigger] newlines_to_spaces(spliced)[k] == bytes(p + t2 + s)[k] by {
                    if k < n1 {
                        assert(spliced[k] == bytes(p + s)[k]);
                    } else if k < n1 + n2 {
                        assert(spliced[k] == bytes(t)[k - n1]);
                        assert(newlines_to_spaces(bytes(t))[k - n1] == bytes(t2)[k - n1]);
                    } else {
                        assert(spliced[k] == bytes(p + s)[k - n2]);
                    }
                }
            }
        } else {
            assert(spliced =~= bytes(p + t2 + s));
        }
        assert(edited(cur, i, j, t, sl) == bytes(p + t2 + s));
        encode_utf8_decode_utf8(p + t2 + s);
        assert(ts.drop_first().len() < ts.len());
        assert forall|k: int| 0 <= k < ts.drop_first().len() implies blen(p + s) + blen(#[trigger] ts.drop_first()[k]) <= usize::MAX by {
            assert(ts.drop_first()[k] == ts[k + 1]);
        }
        assert(blen(t2) == blen(t));
        lemma_compose_seq(p, t2, s, ts.drop_first(), sl);
    }
}

/// Composing leaves no trace: from a caret at a boundary `i`, any run of
/// `set_compose` calls followed by `clear_compose` gives back the text as it
/// was.
pub proof fn lemma_compose_round_trip(text: Seq<char>, i: int, ts: Seq<Seq<char>>, sl: bool)
    requires
        boundary(text, i),
        blen(text) <= usize::MAX,
        forall|k: int| 0 <= k < ts.len() ==> blen(text) + blen(#[trigger] ts[k]) <= usize::MAX,
        sl ==> no_newlines(bytes(text)),
    ensures
        ({
            let (c, j) = compose_seq(text, i, i, ts, sl);
            &&& cuts_text(c, rng(i, j))
            &&& splice(bytes(c), i, j, Seq::empty()) == bytes(text)
        }),
{
    lemma_boundary_prefix(text, i);
    let p = decode_utf8(bytes(text).subrange(0, i));
    let s = decode_utf8(bytes(text).subrange(i, blen(text)));
    assert(text == p + s);
    lemma_bytes_concat(p, s);
    let e = Seq::<char>::empty();
    assert(p + e + s =~= text);
    lemma_empty_bytes();
    assert(blen(p) == i);
    assert(blen(e) == 0);
    lemma_compose_seq(p, e, s, ts, sl);
    let (c, j) = compose_seq(text, i, i, ts, sl);
    let z = choose|z: Seq<char>| c == p + z + s && j == blen(p) + blen(z) && blen(p + z + s) <= usize::MAX;
    lemma_bytes_concat(p, z);
    lemma_bytes_concat(p + z, s);
    lemma_concat_boundary(p, z + s);
    assert(p + (z + s) =~= c);
    lemma_concat_boundary(p + z, s);
    assert(splice(bytes(c), i, j, Seq::empty()) =~= bytes(p) + bytes(s));
}

/// A text in two parts, around an IME preedit text.
#[derive(Debug)]
pub struct SplitString {
    pub first: String,
    pub second: String,
}

impl SplitString {
    /// The characters of both parts, in order.
    pub fn chars(&self) -> (r: Vec<char>)
        ensures
            r@ == self.first@ + self.second@,
    {
        let mut out: Vec<char> = Vec::new();
        push_chars(&mut out, self.first.as_str());
        push_chars(&mut out, self.second.as_str());
        proof {
            assert(out@ =~= self.first@ + self.second@);
        }
        out
    }

    /// Both parts joined.
    pub fn to_string(&self) -> (r: String)
        ensures
            bytes(r@) == bytes(self.first@) + bytes(self.second@),
    {
        let mut r = self.first.as_str().to_owned();
        let n = byte_len(&r);
        proof {
            lemma_ends_are_boundaries(r@);
        }
        replace_range(&mut r, n, n, self.second.as_str());
        proof {
            assert(bytes(r@) =~= bytes(self.first@) + bytes(self.second@));
        }
        r
    }
}

/// Append the characters of `s` to `out`.
fn push_chars(out: &mut Vec<char>, s: &str)
    ensures
        final(out)@ == old(out)@ + s@,
{
    let mut it = s.chars();
    let ghost mut k: int = 0;
    loop
        invariant
            0 <= k <= s@.len(),
            it.remaining() == s@.subrange(k, s@.len() as int),
            it.obeys_prophetic_iter_laws(),
            out@ == old(out)@ + s@.subrange(0, k),
        decreases s@.len() - k,
    {
        match it.next() {
            None => {
                proof {
                    assert(s@.subrange(0, k) =~= s@);
                }
                return;
            },
            Some(c) => {
                out.push(c);
                proof {
                    assert(s@.subrange(0, k + 1) =~= s@.subrange(0, k).push(c));
                    k = k + 1;
                }
            },
        }
    }
}

/// `n` is `o` with the selection deleted; the caret ends at its start.
pub open spec fn deleted_selection(o: TextEdit, n: TextEdit) -> bool {
    let bs = base_sel(o);
    &&& did_replace(o, n, bs.start(), bs.end(), Seq::empty())
    &&& edit_ok(base_text(o), bs.start(), bs.end(), Seq::empty()) ==> n.sel() == caret_after(bs.start(), Seq::empty())
    &&& !edit_ok(base_text(o), bs.start(), bs.end(), Seq::empty()) ==> n.sel() == base_sel(o)
}

/// `n` is `o` with `a..b` deleted and the caret put at `a`, where that cuts
/// the text; otherwise only the placeholder is cleared.
pub open spec fn deleted_to_caret(o: TextEdit, n: TextEdit, a: int, b: int) -> bool {
    &&& did_replace(o, n, a, b, Seq::empty())
    &&& edit_ok(base_text(o), a, b, Seq::empty()) ==> n.sel() == Selection::caret(
        Cursor { index: a as usize, affinity: Affinity::Downstream },
    )
    &&& !edit_ok(base_text(o), a, b, Seq::empty()) ==> n.sel() == base_sel(o)
}

/// `n` is `o` with only the placeholder cleared.
pub open spec fn only_placeholder_cleared(o: TextEdit, n: TextEdit) -> bool {
    &&& n.text_box.text@ == base_text(o)
    &&& n.history == o.history
    &&& n.sel() == base_sel(o)
    &&& !n.showing_placeholder
}

/// What the edits that delete keep: composition, mode and invariant.
pub open spec fn delete_frame(o: TextEdit, n: TextEdit) -> bool {
    &&& n.wf()
    &&& n.compose == o.compose
    &&& n.single_line == o.single_line
    &&& n.newline_mode == o.newline_mode
}

/// The effect of [`TextEdit::delete`].
pub open spec fn delete_post(o: TextEdit, n: TextEdit, downstream: Option<Range<usize>>) -> bool {
    let sel = base_sel(o);
    &&& delete_frame(o, n)
    &&& if sel.start() != sel.end() {
        deleted_selection(o, n)
    } else {
        match downstream {
            Some(r) => if r.start < r.end {
                did_replace(o, n, r.start as int, r.end as int, Seq::empty()) && n.sel() == sel
            } else {
                only_placeholder_cleared(o, n)
            },
            None => only_placeholder_cleared(o, n),
        }
    }
}

/// The effect of [`TextEdit::delete_word`].
pub open spec fn delete_word_post(o: TextEdit, n: TextEdit, next_word: usize) -> bool {
    let sel = base_sel(o);
    &&& delete_frame(o, n)
    &&& if sel.start() != sel.end() {
        deleted_selection(o, n)
    } else {
        deleted_to_caret(o, n, sel.focus.index as int, next_word as int)
    }
}

/// The effect of [`TextEdit::backdelete_word`].
pub open spec fn backdelete_word_post(o: TextEdit, n: TextEdit, prev_word: usize) -> bool {
    let sel = base_sel(o);
    &&& delete_frame(o, n)
    &&& if sel.start() != sel.end() {
        deleted_selection(o, n)
    } else {
        deleted_to_caret(o, n, prev_word as int, sel.focus.index as int)
    }
}

/// The effect of [`TextEdit::backdelete`].
pub open spec fn backdelete_post(o: TextEdit, n: TextEdit, upstream: Option<Cluster>) -> bool {
    let sel = base_sel(o);
    let t = base_text(o);
    &&& delete_frame(o, n)
    &&& if sel.start() != sel.end() {
        deleted_selection(o, n)
    } else {
        match upstream {
            Some(c) => if c.whole {
                deleted_to_caret(o, n, c.range.start as int, c.range.end as int)
            } else if c.range.end > 0 && boundary(t, c.range.end as int) {
                exists|k: int| is_prev_char_start(t, k, c.range.end as int) && deleted_to_caret(o, n, k, c.range.end as int)
            } else {
                only_placeholder_cleared(o, n)
            },
            None => only_placeholder_cleared(o, n),
        }
    }
}

/// The effect of [`TextEdit::insert_or_replace_selection`] with `s`.
pub open spec fn insert_post(o: TextEdit, n: TextEdit, s: Seq<char>) -> bool {
    &&& n.wf()
    &&& did_replace(o, n, base_sel(o).start(), base_sel(o).end(), s)
    &&& edit_ok(base_text(o), base_sel(o).start(), base_sel(o).end(), s)
        ==> n.sel() == caret_after(base_sel(o).start(), s)
    &&& !edit_ok(base_text(o), base_sel(o).start(), base_sel(o).end(), s)
        ==> n.sel() == base_sel(o)
}

/// The effect of [`TextEdit::set_compose`].
pub open spec fn compose_post(o: TextEdit, n: TextEdit, text: Seq<char>, cursor: Option<(usize, usize)>) -> bool {
    &&& n.wf()
    &&& ({
        let (st, en) = compose_target(o);
        if edit_ok(o.text_box.text@, st, en, text) {
            &&& n.text_bytes() == edited(o.text_box.text@, st, en, text, o.single_line)
            &&& n.compose == Some(rng(st, st + blen(text)))
            &&& n.show_cursor == (cursor is Some)
            &&& n.sel() == ime_selection(st, cursor)
            &&& n.text_box.needs_relayout
            &&& n.history == o.history
            &&& n.showing_placeholder == o.showing_placeholder
            &&& n.single_line == o.single_line
            &&& n.placeholder_text == o.placeholder_text
        } else {
            n == o
        }
    })
}

/// The effect of [`TextEdit::clear_compose`].
pub open spec fn clear_compose_post(o: TextEdit, n: TextEdit) -> bool {
    &&& n.wf()
    &&& o.compose is None ==> n == o
    &&& o.compose matches Some(r) ==> {
        &&& cuts_text(o.text_box.text@, r) ==> n.text_bytes() == splice(
            bytes(o.text_box.text@),
            r.start as int,
            r.end as int,
            Seq::empty(),
        )
        &&& !cuts_text(o.text_box.text@, r) ==> n.text_box.text
            == o.text_box.text
        &&& n.compose is None
        &&& n.show_cursor
        &&& n.sel() == caret_at_compose_start(
            r.start as int,
            blen(n.text_box.text@),
        )
        &&& n.history == o.history
        &&& n.showing_placeholder == o.showing_placeholder
        &&& n.single_line == o.single_line
        &&& n.placeholder_text == o.placeholder_text
    }
}

/// The effect of [`TextEdit::undo`].
pub open spec fn undo_post(o: TextEdit, n: TextEdit) -> bool {
    &&& n.wf()
    &&& o.compose is Some ==> n == o
    &&& o.compose is None ==> {
        let h = o.history.model();
        let t = base_text(o);
        let op = undo_target(h);
        &&& !n.showing_placeholder
        &&& n.compose is None
        &&& n.single_line == o.single_line
        &&& n.placeholder_text == o.placeholder_text
        &&& undo_ok(h, t) ==> {
            &&& n.text_bytes() == single_line_fix(
                splice(
                    bytes(t),
                    op.undo.inserted_range.start as int,
                    op.undo.inserted_range.end as int,
                    piece(h.undo_text, op.undo.deleted_range),
                ),
                o.single_line,
            )
            &&& n.history.model() == undone(h, t)
            &&& n.sel() == op.prev_selection
            &&& n.text_box.needs_relayout
        }
        &&& !undo_ok(h, t) ==> {
            &&& n.text_box.text@ == t
            &&& n.history.model() == h
            &&& n.sel() == base_sel(o)
        }
    }
}

/// The effect of [`TextEdit::redo`].
pub open spec fn redo_post(o: TextEdit, n: TextEdit) -> bool {
    &&& n.wf()
    &&& o.compose is Some ==> n == o
    &&& o.compose is None ==> {
        let h = o.history.model();
        let t = base_text(o);
        let rr = h.ops[h.pos].redo->0;
        &&& !n.showing_placeholder
        &&& n.compose is None
        &&& n.single_line == o.single_line
        &&& n.placeholder_text == o.placeholder_text
        &&& redo_ok(h, t) ==> {
            &&& n.text_bytes() == single_line_fix(
                splice(
                    bytes(t),
                    rr.inserted_range.start as int,
                    rr.inserted_range.end as int,
                    piece(h.redo_text, rr.deleted_range),
                ),
                o.single_line,
            )
            &&& n.history.model() == redone(h)
            &&& n.sel() == Selection::caret(
                Cursor {
                    index: (rr.inserted_range.start + (rr.deleted_range.end
                        - rr.deleted_range.start)) as usize,
                    affinity: Affinity::Upstream,
                },
            )
            &&& n.text_box.needs_relayout
        }
        &&& !redo_ok(h, t) ==> {
            &&& n.text_box.text@ == t
            &&& n.history.model() == h
            &&& n.sel() == base_sel(o)
        }
    }
}

/// The effect of [`TextEdit::restore_placeholder_if_any`].
pub open spec fn restore_post(o: TextEdit, n: TextEdit) -> bool {
    &&& n.wf()
    &&& ({
        let shows = o.placeholder_text is Some && o.text_box.text@.len()
            == 0 && !o.showing_placeholder;
        &&& shows ==> {
            &&& n.text_bytes() == single_line_fix(
                bytes(o.placeholder_text->0@),
                o.single_line,
            )
            &&& n.showing_placeholder
            &&& n.text_box.needs_relayout
            &&& n.sel() == Selection::zero_spec()
            &&& n.history == o.history
            &&& n.compose == o.compose
            &&& n.single_line == o.single_line
        }
        &&& !shows ==> n == o
    })
}

/// The effect of [`TextEdit::clear_placeholder`].
pub open spec fn clear_placeholder_post(o: TextEdit, n: TextEdit) -> bool {
    &&& n.wf()
    &&& o.showing_placeholder ==> {
        &&& n.text_box.text@ == Seq::<char>::empty()
        &&& n == TextEdit {
            text_box: TextBox {
                text: n.text_box.text,
                needs_relayout: true,
                selection: SelectionState { selection: Selection::zero_spec(), ..o.text_box.selection },
                ..o.text_box
            },
            showing_placeholder: false,
            ..o
        }
    }
    &&& !o.showing_placeholder ==> n == o
}

/// `e` asking the view to follow the caret.
pub open spec fn followed(e: TextEdit) -> TextEdit {
    TextEdit { should_follow_cursor: true, ..e }
}

/// An editable text widget.
#[derive(Debug)]
pub struct TextEdit {
    pub text_box: TextBox,
    /// Byte range of the IME preedit text, while composing.
    pub compose: Option<Range<usize>>,
    pub show_cursor: bool,
    /// Instant of the last blink reset, in milliseconds on the host's clock.
    pub start_time: Option<u64>,
    pub blink_period: u64,
    pub history: TextEditHistory,
    pub single_line: bool,
    pub newline_mode: NewlineMode,
    pub disabled: bool,
    pub showing_placeholder: bool,
    pub placeholder_text: Option<String>,
    /// Asks for the view to follow the caret after the next layout.
    pub should_follow_cursor: bool,
}

impl TextEdit {
    /// The widget's invariant: the history's position is within its list,
    /// and in single-line mode the text holds no newline.
    pub open spec fn wf(&self) -> bool {
        &&& self.history.wf()
        &&& self.single_line ==> no_newlines(bytes(self.text_box.text@))
    }

    pub open spec fn text_bytes(&self) -> Seq<u8> {
        bytes(self.text_box.text@)
    }

    pub open spec fn sel(&self) -> Selection {
        self.text_box.selection.selection
    }

    /// An empty-history editable widget with `text` at `pos`, of `size`, at
    /// `depth`.
    pub fn new(text: String, pos: (i64, i64), size: (i64, i64), depth: i64) -> (r: TextEdit)
        ensures
            r.wf(),
            r.text_box.text@ == text@,
            r.text_box.left == pos.0 && r.text_box.top == pos.1,
            r.text_box.width == size.0 && r.text_box.height == size.1,
            r.text_box.depth == depth,
            r.text_box.auto_clip,
            !r.text_box.hidden,
            r.sel() == Selection::zero_spec(),
            r.compose is None,
            r.show_cursor,
            r.history.model().ops.len() == 0,
            !r.single_line,
            r.newline_mode == NewlineMode::Enter,
            !r.disabled,
            !r.showing_placeholder,
            r.placeholder_text is None,
            !r.should_follow_cursor,
    {
        let mut text_box = TextBox::new(text, pos, size, depth);
        text_box.auto_clip = true;
        TextEdit {
            text_box,
            compose: None,
            show_cursor: true,
            start_time: None,
            blink_period: 0,
            history: TextEditHistory::new(),
            single_line: false,
            newline_mode: NewlineMode::Enter,
            disabled: false,
            showing_placeholder: false,
            placeholder_text: None,
            should_follow_cursor: false,
        }
    }

    /// Whether an IME composition is active.
    pub fn is_composing(&self) -> (r: bool)
        ensures
            r == (self.compose is Some),
    {
        self.compose.is_some()
    }

    /// Turn newlines into spaces.
    fn remove_newlines(&mut self)
        ensures
            same_but_text(*old(self), *final(self)),
            final(self).history == old(self).history,
            bytes(final(self).text_box.text@) == newlines_to_spaces(bytes(old(self).text_box.text@)),
            no_newlines(bytes(final(self).text_box.text@)),
            final(self).text_box.needs_relayout == (old(self).text_box.needs_relayout || !no_newlines(
                bytes(old(self).text_box.text@),
            )),
    {
        let removed = remove_newlines_inplace(&mut self.text_box.text);
        if removed {
            self.text_box.needs_relayout = true;
        }
    }

    /// Replace `a..b` by `s`, recording the edit in the history. Returns
    /// whether the edit was made; it is not where `a..b` does not cut the
    /// text at character boundaries. The selection is left as it was.
    pub fn replace_range_and_record(&mut self, a: usize, b: usize, s: &str) -> (done: bool)
        requires
            old(self).wf(),
        ensures
            final(self).wf(),
            done == edit_ok(old(self).text_box.text@, a as int, b as int, s@),
            done ==> {
                &&& final(self).text_bytes() == edited(
                    old(self).text_box.text@,
                    a as int,
                    b as int,
                    s@,
                    old(self).single_line,
                )
                &&& final(self).history.model() == recorded(
                    old(self).history.model(),
                    chars_in(old(self).text_box.text@, a as int, b as int),
                    s@,
                    old(self).sel(),
                    a..(a + blen(s@)) as usize,
                )
                &&& final(self).text_box.needs_relayout
                &&& same_but_text(*old(self), *final(self))
            },
            !done ==> *final(self) == *old(self),
    {
        if !(a <= b && is_boundary(&self.text_box.text, a) && is_boundary(&self.text_box.text, b)) {
            return false;
        }
        let s_len = s.as_bytes().len();
        if a > usize::MAX - s_len {
            return false;
        }
        let old_text = slice(self.text_box.text.as_str(), a, b);
        proof {
            crate::buffer::lemma_piece(self.text_box.text@, a as int, b as int);
            crate::buffer::lemma_bytes_injective(old_text@, chars_in(self.text_box.text@, a as int, b as int));
        }
        let sel = self.text_box.selection.selection;
        self.history.record(old_text, s, sel, a..a + s_len);
        replace_range(&mut self.text_box.text, a, b, s);
        self.text_box.needs_relayout = true;
        if self.single_line {
            self.remove_newlines();
        }
        true
    }

    /// Insert `s` at the caret, or replace the selection by it, clearing the
    /// placeholder first. The caret ends after the inserted text, downstream
    /// if it ends in a newline.
    pub fn insert_or_replace_selection(&mut self, s: &str)
        requires
            old(self).wf(),
            old(self).compose is None,
        ensures
            insert_post(*old(self), *final(self), s@),
    {
        self.clear_placeholder();
        let range = self.text_box.selection.selection.text_range();
        let done = self.replace_range_and_record(range.start, range.end, s);
        if done {
            let index = range.start + s.as_bytes().len();
            let affinity = match last_char(s) {
                Some(c) => if c == '\n' {
                    Affinity::Downstream
                } else {
                    Affinity::Upstream
                },
                None => Affinity::Upstream,
            };
            self.text_box.selection.selection = Selection::from_cursor(
                Cursor::from_byte_index(index, affinity),
            );
        }
    }

    /// Delete the selection.
    pub fn delete_selection(&mut self)
        requires
            old(self).wf(),
            old(self).compose is None,
        ensures
            delete_frame(*old(self), *final(self)),
            deleted_selection(*old(self), *final(self)),
    {
        proof {
            lemma_empty_bytes();
            reveal_strlit("");
            assert(""@ =~= Seq::<char>::empty());
        }
        self.insert_or_replace_selection("");
    }

    /// Delete the selection, or, with a caret, the cluster after it.
    pub fn delete(&mut self, downstream: Option<Range<usize>>)
        requires
            old(self).wf(),
            old(self).compose is None,
        ensures
            delete_post(*old(self), *final(self), downstream),
    {
        proof {
            lemma_empty_bytes();
            reveal_strlit("");
            assert(""@ =~= Seq::<char>::empty());
        }
        self.clear_placeholder();
        if self.text_box.selection.selection.is_collapsed() {
            if let Some(r) = downstream {
                if r.start < r.end {
                    self.replace_range_and_record(r.start, r.end, "");
                }
            }
        } else {
            self.delete_selection();
        }
    }

    /// Delete `a..b` and put the caret at `a`, where `a..b` cuts the text.
    fn delete_to_caret(&mut self, a: usize, b: usize)
        requires
            old(self).wf(),
            old(self).compose is None,
            !old(self).showing_placeholder,
        ensures
            delete_frame(*old(self), *final(self)),
            deleted_to_caret(*old(self), *final(self), a as int, b as int),
    {
        proof {
            lemma_empty_bytes();
            reveal_strlit("");
            assert(""@ =~= Seq::<char>::empty());
        }
        if self.replace_range_and_record(a, b, "") {
            self.text_box.selection.set_selection(
                Selection::from_cursor(Cursor::from_byte_index(a, Affinity::Downstream)),
            );
        }
    }

    /// Delete the selection, or, with a caret, up to the next word boundary
    /// `next_word` that the layout reports.
    pub fn delete_word(&mut self, next_word: usize)
        requires
            old(self).wf(),
            old(self).compose is None,
        ensures
            delete_word_post(*old(self), *final(self), next_word),
    {
        self.clear_placeholder();
        if self.text_box.selection.selection.is_collapsed() {
            let start = self.text_box.selection.selection.focus.index;
            self.delete_to_caret(start, next_word);
        } else {
            self.delete_selection();
        }
    }

    /// Delete the selection, or, with a caret, back to the previous word
    /// boundary `prev_word` that the layout reports.
    pub fn backdelete_word(&mut self, prev_word: usize)
        requires
            old(self).wf(),
            old(self).compose is None,
        ensures
            backdelete_word_post(*old(self), *final(self), prev_word),
    {
        self.clear_placeholder();
        if self.text_box.selection.selection.is_collapsed() {
            let end = self.text_box.selection.selection.focus.index;
            self.delete_to_caret(prev_word, end);
        } else {
            self.delete_selection();
        }
    }

    /// Delete the selection, or, with a caret, the cluster before it: whole
    /// for a hard line break or an emoji, else its last character.
    pub fn backdelete(&mut self, upstream: Option<Cluster>)
        requires
            old(self).wf(),
            old(self).compose is None,
        ensures
            backdelete_post(*old(self), *final(self), upstream),
    {
        self.clear_placeholder();
        if self.text_box.selection.selection.is_collapsed() {
            if let Some(c) = upstream {
                let end = c.range.end;
                if c.whole {
                    self.delete_to_caret(c.range.start, end);
                } else {
                    match prev_char_start(&self.text_box.text, end) {
                        Some(start) => self.delete_to_caret(start, end),
                        None => {},
                    }
                }
            }
        } else {
            self.delete_selection();
        }
    }

    /// Set the IME preedit text. The first call replaces the selection and
    /// starts composing; later calls replace the preedit text. The selection
    /// becomes `cursor`, offsets into the preedit text, and the caret is
    /// shown only if there is one. Nothing happens where the range to
    /// replace does not cut the text at character boundaries.
    pub fn set_compose(&mut self, text: &str, cursor: Option<(usize, usize)>)
        requires
            old(self).wf(),
            text@.len() > 0,
        ensures
            compose_post(*old(self), *final(self), text@, cursor),
    {
        let (st, en) = match &self.compose {
            Some(r) => (r.start, r.end),
            None => {
                let r = self.text_box.selection.selection.text_range();
                (r.start, r.end)
            },
        };
        if !(st <= en && is_boundary(&self.text_box.text, st) && is_boundary(&self.text_box.text, en)) {
            return;
        }
        let len = text.as_bytes().len();
        if st > usize::MAX - len {
            return;
        }
        replace_range(&mut self.text_box.text, st, en, text);
        if self.single_line {
            self.remove_newlines();
        }
        self.compose = Some(st..st + len);
        self.show_cursor = cursor.is_some();
        let c = match cursor {
            Some(c) => c,
            None => (0, 0),
        };
        let anchor = Cursor::from_byte_index(sat_add_usize(st, c.0), Affinity::Downstream);
        let focus = Cursor::from_byte_index(sat_add_usize(st, c.1), Affinity::Downstream);
        self.text_box.selection.set_selection(Selection::new(anchor, focus));
        self.text_box.needs_relayout = true;
    }

    /// Stop composing: the preedit text is removed, the caret is shown and
    /// put where the preedit started (at the end, upstream, if that is past
    /// the end of the text).
    pub fn clear_compose(&mut self)
        requires
            old(self).wf(),
        ensures
            clear_compose_post(*old(self), *final(self)),
    {
        if let Some(r) = &self.compose {
            let start = r.start;
            let end = r.end;
            if start <= end && is_boundary(&self.text_box.text, start) && is_boundary(
                &self.text_box.text,
                end,
            ) {
                replace_range(&mut self.text_box.text, start, end, "");
                proof {
                    lemma_empty_bytes();
                    reveal_strlit("");
                    let b = self.text_bytes();
                    let o = bytes(old(self).text_box.text@);
                    assert(b =~= o.subrange(0, start as int) + o.subrange(end as int, o.len() as int));
                    assert(old(self).single_line ==> no_newlines(b)) by {
                        if old(self).single_line {
                            assert forall|i: int| 0 <= i < b.len() implies b[i] != 10u8 && b[i] != 13u8 by {
                                if i < start {
                                    assert(b[i] == o[i]);
                                } else {
                                    assert(b[i] == o[i + (end - start)]);
                                }
                            }
                        }
                    }
                }
                self.text_box.needs_relayout = true;
            }
            self.compose = None;
            self.show_cursor = true;
            let len = byte_len(&self.text_box.text);
            let caret = if start >= len {
                Cursor::from_byte_index(len, Affinity::Upstream)
            } else {
                Cursor::from_byte_index(start, Affinity::Downstream)
            };
            self.text_box.selection.selection = Selection::from_cursor(caret);
        }
    }

    /// Undo the last entry of the history, unless composing. The placeholder
    /// is cleared first; the selection goes back to what it was before the
    /// entry's edit.
    pub fn undo(&mut self)
        requires
            old(self).wf(),
        ensures
            undo_post(*old(self), *final(self)),
    {
        if self.is_composing() {
            return;
        }
        self.clear_placeholder();
        match self.history.undo(&self.text_box.text) {
            Some(op) => {
                replace_range(
                    &mut self.text_box.text,
                    op.range_to_clear.start,
                    op.range_to_clear.end,
                    op.text_to_restore.as_str(),
                );
                self.text_box.selection.set_selection(op.prev_selection);
                self.text_box.needs_relayout = true;
                if self.single_line {
                    self.remove_newlines();
                }
            },
            None => {},
        }
    }

    /// Redo the entry after the history's position, unless composing. The
    /// caret ends, upstream, after the restored text.
    pub fn redo(&mut self)
        requires
            old(self).wf(),
        ensures
            redo_post(*old(self), *final(self)),
    {
        if self.is_composing() {
            return;
        }
        self.clear_placeholder();
        match self.history.redo(&self.text_box.text) {
            Some(op) => {
                let start = op.range_to_clear.start;
                replace_range(
                    &mut self.text_box.text,
                    start,
                    op.range_to_clear.end,
                    op.text_to_restore.as_str(),
                );
                let n = byte_len(&self.text_box.text);
                let restored = op.text_to_restore.as_str().as_bytes().len();
                proof {
                    assert(bytes(self.text_box.text@).len() >= start + restored);
                }
                let end = start + restored;
                self.text_box.selection.selection = Selection::from_cursor(
                    Cursor::from_byte_index(end, Affinity::Upstream),
                );
                self.text_box.needs_relayout = true;
                if self.single_line {
                    self.remove_newlines();
                }
            },
            None => {},
        }
    }

    /// Replace the whole text, bypassing and clearing the history: the caret
    /// goes to the end, composition stops, the blink restarts at `now` and
    /// the placeholder is no longer shown.
    pub fn set_text(&mut self, new_text: String, now: u64)
        requires
            old(self).wf(),
        ensures
            final(self).wf(),
            final(self).text_bytes() == single_line_fix(bytes(new_text@), old(self).single_line),
            final(self).sel() == Selection::caret(
                Cursor { index: blen(final(self).text_box.text@) as usize, affinity: Affinity::Upstream },
            ),
            final(self).compose is None,
            final(self).show_cursor,
            final(self).start_time == Some(now),
            final(self).blink_period == BLINK_PERIOD_MS,
            !final(self).showing_placeholder,
            final(self).history.model().ops.len() == 0,
            final(self).history.model().pos == 0,
            final(self).history.wf(),
            final(self).text_box.needs_relayout,
            final(self).single_line == old(self).single_line,
            final(self).placeholder_text == old(self).placeholder_text,
    {
        self.text_box.text = new_text;
        if self.single_line {
            self.remove_newlines();
        }
        self.history = TextEditHistory::new();
        self.text_box.needs_relayout = true;
        self.move_to_text_end();
        self.compose = None;
        self.cursor_reset(now);
        self.showing_placeholder = false;
    }

    /// Put the caret at the end of the text.
    pub fn move_to_text_end(&mut self)
        ensures
            final(self).sel() == Selection::caret(
                Cursor { index: blen(old(self).text_box.text@) as usize, affinity: Affinity::Upstream },
            ),
            final(self).text_box.selection.prev_anchor is None,
            final(self).text_box.text == old(self).text_box.text,
            final(self).history == old(self).history,
            final(self).compose == old(self).compose,
            final(self).single_line == old(self).single_line,
            final(self).showing_placeholder == old(self).showing_placeholder,
            final(self).placeholder_text == old(self).placeholder_text,
            final(self).text_box.needs_relayout == old(self).text_box.needs_relayout,
    {
        let n = byte_len(&self.text_box.text);
        self.text_box.selection.set_selection(
            Selection::from_cursor(Cursor::from_byte_index(n, Affinity::Upstream)),
        );
    }

    /// Put the caret at the start of the text.
    pub fn move_to_text_start(&mut self)
        ensures
            final(self).sel() == Selection::zero_spec(),
            final(self).text_box.selection.prev_anchor is None,
            final(self).text_box.text == old(self).text_box.text,
            final(self).history == old(self).history,
            final(self).compose == old(self).compose,
            final(self).single_line == old(self).single_line,
            final(self).showing_placeholder == old(self).showing_placeholder,
    {
        self.text_box.selection.set_selection(Selection::zero());
    }

    /// Put the caret at byte `index`, if it is a character boundary.
    pub fn move_to_byte(&mut self, index: usize)
        ensures
            boundary(old(self).text_box.text@, index as int) ==> final(self).sel() == Selection::caret(
                Cursor { index, affinity: Affinity::Downstream },
            ),
            !boundary(old(self).text_box.text@, index as int) ==> final(self).sel() == old(self).sel(),
            final(self).text_box.text == old(self).text_box.text,
            final(self).history == old(self).history,
            final(self).compose == old(self).compose,
            final(self).single_line == old(self).single_line,
            final(self).showing_placeholder == old(self).showing_placeholder,
    {
        if is_boundary(&self.text_box.text, index) {
            self.text_box.selection.set_selection(
                Selection::from_cursor(Cursor::from_byte_index(index, Affinity::Downstream)),
            );
        }
    }

    /// Set the placeholder; it is shown at once if the text is empty or a
    /// placeholder is already shown.
    pub fn set_placeholder(&mut self, placeholder: String)
        requires
            old(self).wf(),
        ensures
            final(self).wf(),
            final(self).placeholder_text == Some(placeholder),
            (old(self).text_box.text@.len() == 0 || old(self).showing_placeholder) ==> {
                &&& final(self).text_bytes() == single_line_fix(bytes(placeholder@), old(self).single_line)
                &&& final(self).showing_placeholder
                &&& final(self).sel() == Selection::zero_spec()
                &&& final(self).text_box.needs_relayout
            },
            !(old(self).text_box.text@.len() == 0 || old(self).showing_placeholder) ==> {
                &&& final(self).text_box.text == old(self).text_box.text
                &&& final(self).showing_placeholder == old(self).showing_placeholder
                &&& final(self).sel() == old(self).sel()
            },
            final(self).history == old(self).history,
            final(self).compose == old(self).compose,
            final(self).single_line == old(self).single_line,
    {
        let shown = placeholder.as_str().to_owned();
        self.placeholder_text = Some(placeholder);
        if self.text_box.text.as_str().is_empty() || self.showing_placeholder {
            self.text_box.text = shown;
            if self.single_line {
                self.remove_newlines();
            }
            self.text_box.needs_relayout = true;
            self.showing_placeholder = true;
            self.text_box.selection.set_selection(Selection::zero());
        }
    }

    /// Whether the placeholder is shown.
    pub fn showing_placeholder(&self) -> (r: bool)
        ensures
            r == self.showing_placeholder,
    {
        self.showing_placeholder
    }

    /// Switch single-line mode. Entering it turns every newline into a space
    /// and sets the newline mode to [`NewlineMode::Never`]; leaving it sets
    /// [`NewlineMode::Enter`].
    pub fn set_single_line(&mut self, single_line: bool)
        requires
            old(self).wf(),
        ensures
            final(self).wf(),
            final(self).single_line == single_line,
            old(self).single_line == single_line ==> *final(self) == *old(self),
            old(self).single_line != single_line ==> {
                &&& final(self).text_box.needs_relayout
                &&& single_line ==> final(self).newline_mode == NewlineMode::Never
                    && final(self).text_bytes() == newlines_to_spaces(old(self).text_bytes())
                &&& !single_line ==> final(self).newline_mode == NewlineMode::Enter
                    && final(self).text_box.text == old(self).text_box.text
                &&& final(self).history == old(self).history
                &&& final(self).sel() == old(self).sel()
            },
    {
        if self.single_line != single_line {
            self.single_line = single_line;
            self.text_box.needs_relayout = true;
            if single_line {
                self.newline_mode = NewlineMode::Never;
                self.remove_newlines();
            } else {
                self.newline_mode = NewlineMode::Enter;
            }
        }
    }

    /// Whether the widget is single-line.
    pub fn is_single_line(&self) -> (r: bool)
        ensures
            r == self.single_line,
    {
        self.single_line
    }

    /// Set how newlines are entered; ignored in single-line mode.
    pub fn set_newline_mode(&mut self, mode: NewlineMode)
        ensures
            !old(self).single_line ==> *final(self) == (TextEdit { newline_mode: mode, ..*old(self) }),
            old(self).single_line ==> *final(self) == *old(self),
    {
        if !self.single_line {
            self.newline_mode = mode;
        }
    }

    /// How newlines are entered.
    pub fn newline_mode(&self) -> (r: NewlineMode)
        ensures
            r == self.newline_mode,
    {
        self.newline_mode
    }

    /// Enable or disable the widget.
    pub fn set_disabled(&mut self, disabled: bool)
        ensures
            *final(self) == (TextEdit { disabled, ..*old(self) }),
    {
        self.disabled = disabled;
    }

    /// Whether the widget is disabled.
    pub fn disabled(&self) -> (r: bool)
        ensures
            r == self.disabled,
    {
        self.disabled
    }

    /// The text, empty while the placeholder is shown.
    pub fn raw_text(&self) -> (r: &str)
        ensures
            r@ == base_text(*self),
    {
        if self.showing_placeholder {
            proof {
                reveal_strlit("");
                assert(""@ =~= Seq::<char>::empty());
            }
            ""
        } else {
            self.text_box.text.as_str()
        }
    }

    /// The selected text, if any.
    pub fn selected_text(&self) -> (r: Option<&str>)
        ensures
            r is Some <==> self.text_box.has_selected_text(),
            r matches Some(t) ==> bytes(t@) == bytes(self.text_box.text@).subrange(
                self.sel().start(),
                self.sel().end(),
            ),
    {
        self.text_box.selected_text()
    }

    /// Restart the caret blink at `now` (milliseconds) and show the caret.
    pub fn cursor_reset(&mut self, now: u64)
        ensures
            *final(self) == (TextEdit {
                start_time: Some(now),
                blink_period: BLINK_PERIOD_MS,
                show_cursor: true,
                ..*old(self)
            }),
    {
        self.start_time = Some(now);
        self.blink_period = BLINK_PERIOD_MS;
        self.show_cursor = true;
    }

    /// Stop the caret from blinking.
    pub fn disable_blink(&mut self)
        ensures
            *final(self) == (TextEdit { start_time: None, ..*old(self) }),
    {
        self.start_time = None;
    }

    /// Update the caret's visibility at `now`: shown during even periods
    /// since the last reset, hidden during odd ones and when not blinking.
    pub fn cursor_blink(&mut self, now: u64)
        ensures
            *final(self) == (TextEdit {
                show_cursor: blink_visible(old(self).start_time, old(self).blink_period, now),
                ..*old(self)
            }),
    {
        self.show_cursor = match self.start_time {
            Some(start) => {
                let elapsed = if now >= start {
                    now - start
                } else {
                    0
                };
                if self.blink_period == 0 {
                    true
                } else {
                    (elapsed / self.blink_period) % 2 == 0
                }
            },
            None => false,
        };
    }

    /// The next instant after `now` at which the caret toggles, if blinking.
    pub fn next_blink_time(&self, now: u64) -> (r: Option<u64>)
        ensures
            r == next_blink(self.start_time, self.blink_period, now),
    {
        match self.start_time {
            Some(start) => {
                if self.blink_period == 0 {
                    return None;
                }
                let elapsed = if now >= start {
                    now - start
                } else {
                    0
                };
                let q = elapsed / self.blink_period;
                let p = self.blink_period as u128;
                proof {
                    assert((q as int + 1) * (p as int) <= elapsed as int + p as int) by (nonlinear_arith)
                        requires
                            q as int == elapsed as int / (p as int),
                            p > 0,
                    ;
                }
                let t = start as u128 + (q as u128 + 1) * p;
                if t > u64::MAX as u128 {
                    return None;
                }
                Some(t as u64)
            },
            None => None,
        }
    }

    /// Put the selection where the layout engine moved it.
    fn set_sel(&mut self, sel: Selection)
        ensures
            final(self).sel() == sel,
            final(self).text_box.selection.prev_anchor is None,
            *final(self) == (TextEdit {
                text_box: TextBox { selection: final(self).text_box.selection, ..old(self).text_box },
                ..*old(self)
            }),
    {
        self.text_box.selection.set_selection(sel);
    }

    /// Caret to the cluster boundary nearest a point, as the layout found it.
    pub fn move_to_point(&mut self, p: &crate::events::PointSelections)
        ensures
            final(self).sel() == p.caret,
            final(self).text_box.text == old(self).text_box.text,
            final(self).history == old(self).history,
    {
        self.set_sel(p.caret);
    }

    /// Move the selection's focus to a point, as the layout found it.
    pub fn extend_selection_to_point(&mut self, p: &crate::events::PointSelections)
        ensures
            final(self).sel() == p.extended,
            final(self).text_box.text == old(self).text_box.text,
            final(self).history == old(self).history,
    {
        self.set_sel(p.extended);
    }

    /// Caret to the start of the line.
    pub fn move_to_line_start(&mut self, nav: &crate::events::Navigation)
        ensures
            final(self).sel() == nav.line_start.moved,
            final(self).text_box.text == old(self).text_box.text,
            final(self).history == old(self).history,
    {
        self.set_sel(nav.line_start.moved);
    }

    /// Caret to the end of the line.
    pub fn move_to_line_end(&mut self, nav: &crate::events::Navigation)
        ensures
            final(self).sel() == nav.line_end.moved,
            final(self).text_box.text == old(self).text_box.text,
            final(self).history == old(self).history,
    {
        self.set_sel(nav.line_end.moved);
    }

    /// Caret one line up.
    pub fn move_up(&mut self, nav: &crate::events::Navigation)
        ensures
            final(self).sel() == nav.up.moved,
            final(self).text_box.text == old(self).text_box.text,
            final(self).history == old(self).history,
    {
        self.set_sel(nav.up.moved);
    }

    /// Caret one line down.
    pub fn move_down(&mut self, nav: &crate::events::Navigation)
        ensures
            final(self).sel() == nav.down.moved,
            final(self).text_box.text == old(self).text_box.text,
            final(self).history == old(self).history,
    {
        self.set_sel(nav.down.moved);
    }

    /// Caret one cluster left.
    pub fn move_left(&mut self, nav: &crate::events::Navigation)
        ensures
            final(self).sel() == nav.left.moved,
            final(self).text_box.text == old(self).text_box.text,
            final(self).history == old(self).history,
    {
        self.set_sel(nav.left.moved);
    }

    /// Caret one cluster right.
    pub fn move_right(&mut self, nav: &crate::events::Navigation)
        ensures
            final(self).sel() == nav.right.moved,
            final(self).text_box.text == old(self).text_box.text,
            final(self).history == old(self).history,
    {
        self.set_sel(nav.right.moved);
    }

    /// Caret one word left.
    pub fn move_word_left(&mut self, nav: &crate::events::Navigation)
        ensures
            final(self).sel() == nav.word_left.moved,
            final(self).text_box.text == old(self).text_box.text,
            final(self).history == old(self).history,
    {
        self.set_sel(nav.word_left.moved);
    }

    /// Caret one word right.
    pub fn move_word_right(&mut self, nav: &crate::events::Navigation)
        ensures
            final(self).sel() == nav.word_right.moved,
            final(self).text_box.text == old(self).text_box.text,
            final(self).history == old(self).history,
    {
        self.set_sel(nav.word_right.moved);
    }

    /// Select the whole text.
    pub fn select_all(&mut self, nav: &crate::events::Navigation)
        ensures
            final(self).sel() == nav.all,
            final(self).text_box.text == old(self).text_box.text,
            final(self).history == old(self).history,
    {
        self.set_sel(nav.all);
    }

    /// Collapse the selection to its focus.
    pub fn collapse_selection(&mut self)
        ensures
            final(self).sel() == Selection::caret(old(self).sel().focus),
            final(self).text_box.text == old(self).text_box.text,
            final(self).history == old(self).history,
    {
        let c = self.text_box.selection.selection.collapse();
        self.set_sel(c);
    }

    /// The selection.
    pub fn selection(&self) -> (r: &Selection)
        ensures
            *r == self.sel(),
    {
        &self.text_box.selection.selection
    }

    /// The selection as stored, without the layout's validation.
    pub fn raw_selection(&self) -> (r: &Selection)
        ensures
            *r == self.sel(),
    {
        &self.text_box.selection.selection
    }

    pub fn pos(&self) -> (r: (i64, i64))
        ensures
            r == self.text_box.pos_spec(),
    {
        self.text_box.pos()
    }

    pub fn hidden(&self) -> (r: bool)
        ensures
            r == self.text_box.hidden,
    {
        self.text_box.hidden
    }

    pub fn depth(&self) -> (r: i64)
        ensures
            r == self.text_box.depth,
    {
        self.text_box.depth
    }

    /// The text without the preedit text, in two parts around it.
    pub fn text(&self) -> (r: SplitString)
        ensures
            match self.compose {
                Some(c) => if cuts_text(self.text_box.text@, c) {
                    &&& bytes(r.first@) == bytes(self.text_box.text@).subrange(0, c.start as int)
                    &&& bytes(r.second@) == bytes(self.text_box.text@).subrange(
                        c.end as int,
                        blen(self.text_box.text@),
                    )
                } else {
                    r.first@ == self.text_box.text@ && r.second@.len() == 0
                },
                None => r.first@ == self.text_box.text@ && r.second@.len() == 0,
            },
    {
        let whole = SplitString { first: self.text_box.text.as_str().to_owned(), second: String::new() };
        match &self.compose {
            Some(c) => {
                let n = byte_len(&self.text_box.text);
                if c.start <= c.end && is_boundary(&self.text_box.text, c.start) && is_boundary(
                    &self.text_box.text,
                    c.end,
                ) {
                    proof {
                        lemma_ends_are_boundaries(self.text_box.text@);
                    }
                    let a = slice(self.text_box.text.as_str(), 0, c.start).to_owned();
                    let b = slice(self.text_box.text.as_str(), c.end, n).to_owned();
                    SplitString { first: a, second: b }
                } else {
                    whole
                }
            },
            None => whole,
        }
    }

    /// See [`TextBox::set_pos`].
    pub fn set_pos(&mut self, pos: (i64, i64))
        ensures
            final(self).text_box.text == old(self).text_box.text,
            final(self).history == old(self).history,
            final(self).sel() == old(self).sel(),
            final(self).single_line == old(self).single_line,
    {
        self.text_box.set_pos(pos);
    }

    /// See [`TextBox::set_size`].
    pub fn set_size(&mut self, size: (i64, i64))
        ensures
            final(self).text_box.text == old(self).text_box.text,
            final(self).history == old(self).history,
            final(self).sel() == old(self).sel(),
            final(self).single_line == old(self).single_line,
    {
        self.text_box.set_size(size);
    }

    /// See [`TextBox::set_hidden`].
    pub fn set_hidden(&mut self, hidden: bool)
        ensures
            final(self).text_box.text == old(self).text_box.text,
            final(self).history == old(self).history,
            final(self).sel() == old(self).sel(),
            final(self).single_line == old(self).single_line,
    {
        self.text_box.set_hidden(hidden);
    }

    /// See [`TextBox::set_depth`].
    pub fn set_depth(&mut self, value: i64)
        ensures
            final(self).text_box.text == old(self).text_box.text,
            final(self).history == old(self).history,
            final(self).sel() == old(self).sel(),
            final(self).single_line == old(self).single_line,
    {
        self.text_box.set_depth(value);
    }

    /// See [`TextBox::set_clip_rect`].
    pub fn set_clip_rect(&mut self, clip_rect: Option<(i64, i64, i64, i64)>)
        ensures
            final(self).text_box.text == old(self).text_box.text,
            final(self).history == old(self).history,
            final(self).sel() == old(self).sel(),
            final(self).single_line == old(self).single_line,
    {
        self.text_box.set_clip_rect(clip_rect);
    }

    /// See [`TextBox::set_fadeout_clipping`].
    pub fn set_fadeout_clipping(&mut self, fadeout_clipping: bool)
        ensures
            final(self).text_box.text == old(self).text_box.text,
            final(self).history == old(self).history,
            final(self).sel() == old(self).sel(),
            final(self).single_line == old(self).single_line,
    {
        self.text_box.set_fadeout_clipping(fadeout_clipping);
    }

    /// See [`TextBox::set_auto_clip`].
    pub fn set_auto_clip(&mut self, auto_clip: bool)
        ensures
            final(self).text_box.text == old(self).text_box.text,
            final(self).history == old(self).history,
            final(self).sel() == old(self).sel(),
            final(self).single_line == old(self).single_line,
    {
        self.text_box.set_auto_clip(auto_clip);
    }

    /// See [`TextBox::set_scroll_offset`].
    pub fn set_scroll_offset(&mut self, offset: i64)
        ensures
            final(self).text_box.text == old(self).text_box.text,
            final(self).history == old(self).history,
            final(self).sel() == old(self).sel(),
            final(self).single_line == old(self).single_line,
    {
        self.text_box.set_scroll_offset(offset);
    }

    /// See [`TextBox::set_clip_rect_with_fadeout`].
    pub fn set_clip_rect_with_fadeout(&mut self, clip_rect: Option<(i64, i64, i64, i64)>, fadeout_clipping: bool)
        ensures
            final(self).text_box == (TextBox { clip_rect, fadeout_clipping, ..old(self).text_box }),
            final(self).history == old(self).history,
            final(self).single_line == old(self).single_line,
    {
        self.text_box.set_clip_rect_with_fadeout(clip_rect, fadeout_clipping);
    }

    /// Use another style; the text is laid out again.
    pub fn set_style(&mut self, style: &crate::text_box::StyleHandle)
        ensures
            final(self).text_box.style.index_spec() == style.index_spec(),
            final(self).text_box.needs_relayout,
            final(self).text_box.text == old(self).text_box.text,
            final(self).history == old(self).history,
            final(self).single_line == old(self).single_line,
    {
        self.text_box.set_style(style);
    }

    pub fn clip_rect(&self) -> (r: Option<(i64, i64, i64, i64)>)
        ensures
            r == self.text_box.clip_rect,
    {
        self.text_box.clip_rect
    }

    pub fn fadeout_clipping(&self) -> (r: bool)
        ensures
            r == self.text_box.fadeout_clipping,
    {
        self.text_box.fadeout_clipping
    }

    pub fn auto_clip(&self) -> (r: bool)
        ensures
            r == self.text_box.auto_clip,
    {
        self.text_box.auto_clip
    }

    pub fn scroll_offset(&self) -> (r: i64)
        ensures
            r == self.text_box.scroll_offset,
    {
        self.text_box.scroll_offset
    }

    /// Drop the placeholder, if shown: the buffer becomes empty and the
    /// selection collapses at the start.
    pub fn clear_placeholder(&mut self)
        requires
            old(self).wf(),
        ensures
            clear_placeholder_post(*old(self), *final(self)),
    {
        if self.showing_placeholder {
            self.text_box.text = String::new();
            self.showing_placeholder = false;
            self.text_box.needs_relayout = true;
            self.text_box.selection.selection = Selection::zero();
            proof {
                lemma_empty_bytes();
                assert(self.text_box.text@ =~= Seq::<char>::empty());
            }
        }
    }

    /// Show the placeholder if the buffer is empty, one is set and it is not
    /// shown yet: the buffer takes the placeholder's text and the selection
    /// collapses at the start.
    pub fn restore_placeholder_if_any(&mut self)
        requires
            old(self).wf(),
        ensures
            restore_post(*old(self), *final(self)),
    {
        let empty = self.text_box.text.as_str().is_empty();
        let restored = match &self.placeholder_text {
            Some(p) => if empty && !self.showing_placeholder {
                Some(p.as_str().to_owned())
            } else {
                None
            },
            None => None,
        };
        if let Some(t) = restored {
            self.text_box.text = t;
            self.showing_placeholder = true;
            self.text_box.needs_relayout = true;
            self.text_box.selection.selection = Selection::zero();
            if self.single_line {
                self.remove_newlines();
            }
        }
    }
}

/// The start of the last character before `end`, where `end` is a boundary
/// after the start of the text.
pub fn prev_char_start(text: &String, end: usize) -> (r: Option<usize>)
    ensures
        r is Some <==> (end > 0 && boundary(text@, end as int)),
        r matches Some(k) ==> is_prev_char_start(text@, k as int, end as int),
{
    if end == 0 || !is_boundary(text, end) {
        return None;
    }
    proof {
        lemma_ends_are_boundaries(text@);
    }
    let mut k: usize = end - 1;
    while !is_boundary(text, k)
        invariant
            0 <= k < end,
            boundary(text@, 0),
            forall|j: int| k < j < end ==> !boundary(text@, j),
        decreases k,
    {
        k = k - 1;
    }
    Some(k)
}

/// `b` differs from `a` at most in the text, the layout flag and the history.
pub open spec fn same_but_text(a: TextEdit, b: TextEdit) -> bool {
    b == TextEdit {
        text_box: TextBox {
            text: b.text_box.text,
            needs_relayout: b.text_box.needs_relayout,
            ..a.text_box
        },
        history: b.history,
        ..a
    }
}

} // verus!
