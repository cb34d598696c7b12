//! Undo/redo history of a text edit, with coalescing of similar edits.
//!
//! Deleted fragments are kept in one string (`undo_text`) in order of
//! insertion; fragments that a redo re-deletes are kept in `redo_text`. Each
//! recorded operation holds byte ranges into the live buffer and into those
//! strings.
use crate::buffer::{
    all_blank, blen, boundary, byte_len, bytes, is_all_blank, is_white_space, is_whitespace,
    last_char, lemma_bytes_concat, lemma_concat_boundary, lemma_empty_bytes,
    lemma_boundary_append, lemma_bytes_injective, lemma_ends_are_boundaries, lemma_piece,
    lemma_splice, lemma_take_monotone, replace_range, slice,
    splice,
};
use vstd::utf8::{decode_utf8, encode_utf8_valid_utf8};
use crate::selection::Selection;
use std::ops::Range;
use vstd::prelude::*;

verus! {

/// Byte ranges needed to undo (or redo) one operation.
#[derive(Debug)]
pub struct Ranges {
    /// Range in the live buffer of the text that the operation inserted.
    pub inserted_range: Range<usize>,
    /// Range in the history's own buffer of the text that the operation deleted.
    pub deleted_range: Range<usize>,
}

/// One entry of the history.
#[derive(Debug)]
pub struct RecordedOp {
    pub undo: Ranges,
    /// Filled when the entry is undone.
    pub redo: Option<Ranges>,
    /// The selection right before the operation.
    pub prev_selection: Selection,
}

/// Whether the next edit may be merged into the last entry.
#[derive(Clone, Copy, Debug, PartialEq, Eq, Structural)]
pub enum GrowHint {
    CannotGrow,
    GrowableInsert(usize),
    GrowableInsertWhitespace(usize),
    GrowableDelete(usize),
    GrowableDeleteWhitespace(usize),
}

/// What an undo or redo asks of the live buffer.
#[derive(Debug)]
pub struct TextRestore {
    /// Range of the live buffer to clear.
    pub range_to_clear: Range<usize>,
    /// Text to put in its place.
    pub text_to_restore: String,
    /// Selection right before the operation.
    pub prev_selection: Selection,
}

/// The history of a text edit.
#[derive(Debug)]
pub struct TextEditHistory {
    undo_text: String,
    redo_text: String,
    history: Vec<RecordedOp>,
    current_position: usize,
    can_grow: GrowHint,
}

/// Entries longer than this never grow.
pub const MAX_GROWABLE_SIZE: usize = 20;

/// The abstract state of a history.
pub struct HistoryModel {
    pub undo_text: Seq<u8>,
    pub redo_text: Seq<u8>,
    pub ops: Seq<RecordedOp>,
    pub pos: int,
    pub hint: GrowHint,
}

pub open spec fn rng(start: int, end: int) -> Range<usize> {
    Range { start: start as usize, end: end as usize }
}

/// `r` is a well-ordered range that cuts `s` at character boundaries.
pub open spec fn cuts(s: Seq<char>, r: Range<usize>) -> bool {
    r.start <= r.end && boundary(s, r.start as int) && boundary(s, r.end as int)
}

/// The same, on bytes that are known to be the encoding of some text.
pub open spec fn cuts_bytes(b: Seq<u8>, r: Range<usize>) -> bool {
    r.start <= r.end <= b.len() && vstd::utf8::is_char_boundary(b, r.start as int)
        && vstd::utf8::is_char_boundary(b, r.end as int)
}

pub open spec fn piece(b: Seq<u8>, r: Range<usize>) -> Seq<u8> {
    b.subrange(r.start as int, r.end as int)
}

/// The history with its future (the undone entries) dropped.
pub open spec fn truncate_future(h: HistoryModel) -> HistoryModel {
    if h.pos < h.ops.len() {
        let k = h.ops[h.pos].undo.deleted_range.start;
        HistoryModel {
            undo_text: if k <= h.undo_text.len() && vstd::utf8::is_char_boundary(h.undo_text, k as int) {
                h.undo_text.subrange(0, k as int)
            } else {
                h.undo_text
            },
            redo_text: Seq::empty(),
            ops: h.ops.subrange(0, h.pos),
            pos: h.pos,
            hint: h.hint,
        }
    } else {
        h
    }
}

/// Which merge `hint` allows for an edit that deleted `old` and inserted `new`.
pub open spec fn grows_insert(hint: GrowHint, old: Seq<char>, new: Seq<char>) -> bool {
    match hint {
        GrowHint::GrowableInsert(n) => old.len() == 0 && n < MAX_GROWABLE_SIZE,
        GrowHint::GrowableInsertWhitespace(n) => old.len() == 0 && all_blank(new) && n
            < MAX_GROWABLE_SIZE,
        _ => false,
    }
}

pub open spec fn grows_delete(hint: GrowHint, old: Seq<char>, ins: Range<usize>) -> bool {
    match hint {
        GrowHint::GrowableDelete(n) => ins.start == ins.end && n < MAX_GROWABLE_SIZE,
        GrowHint::GrowableDeleteWhitespace(n) => ins.start == ins.end && all_blank(old) && n
            < MAX_GROWABLE_SIZE,
        _ => false,
    }
}

/// The hint after an entry whose undo ranges are `last`, for an edit of `old` to `new`.
pub open spec fn next_hint(last: Ranges, old: Seq<char>, new: Seq<char>) -> GrowHint {
    if last.deleted_range.start == last.deleted_range.end {
        if new.len() == 0 {
            GrowHint::CannotGrow
        } else if is_white_space(new.last()) {
            GrowHint::GrowableInsertWhitespace(blen(new) as usize)
        } else {
            GrowHint::GrowableInsert(blen(new) as usize)
        }
    } else if last.inserted_range.start == last.inserted_range.end {
        if old.len() == 0 {
            GrowHint::CannotGrow
        } else if is_white_space(old.last()) {
            GrowHint::GrowableDeleteWhitespace(blen(old) as usize)
        } else {
            GrowHint::GrowableDelete(blen(old) as usize)
        }
    } else {
        GrowHint::CannotGrow
    }
}

/// The model after `record` of an edit that replaced `old` by `new`, with the
/// selection `sel` before it and `ins` the range that `new` now takes.
pub open spec fn recorded(
    h: HistoryModel,
    old: Seq<char>,
    new: Seq<char>,
    sel: Selection,
    ins: Range<usize>,
) -> HistoryModel {
    let t = truncate_future(h);
    let n = t.ops.len();
    let u = t.undo_text;
    let merged = if n > 0 && grows_insert(t.hint, old, new) {
        let last = t.ops[n - 1];
        HistoryModel {
            ops: t.ops.update(
                n - 1,
                RecordedOp {
                    undo: Ranges {
                        inserted_range: rng(last.undo.inserted_range.start as int, ins.end as int),
                        deleted_range: last.undo.deleted_range,
                    },
                    redo: last.redo,
                    prev_selection: last.prev_selection,
                },
            ),
            ..t
        }
    } else if n > 0 && grows_delete(t.hint, old, ins) && can_merge_delete(t) {
        let last = t.ops[n - 1];
        let s = last.undo.deleted_range.start as int;
        let u2 = u.subrange(0, s) + bytes(old) + u.subrange(s, u.len() as int);
        HistoryModel {
            undo_text: u2,
            ops: t.ops.update(
                n - 1,
                RecordedOp {
                    undo: Ranges { inserted_range: ins, deleted_range: rng(s, u2.len() as int) },
                    redo: last.redo,
                    prev_selection: last.prev_selection,
                },
            ),
            ..t
        }
    } else {
        let u2 = u + bytes(old);
        HistoryModel {
            undo_text: u2,
            ops: t.ops.push(
                RecordedOp {
                    undo: Ranges { inserted_range: ins, deleted_range: rng(u.len() as int, u2.len() as int) },
                    redo: None,
                    prev_selection: sel,
                },
            ),
            pos: t.pos + 1,
            ..t
        }
    };
    HistoryModel { hint: next_hint(merged.ops.last().undo, old, new), ..merged }
}

/// A delete can be merged: the last entry's stored text starts at a boundary.
pub open spec fn can_merge_delete(t: HistoryModel) -> bool {
    let s = t.ops.last().undo.deleted_range.start;
    s <= t.undo_text.len() && vstd::utf8::is_char_boundary(t.undo_text, s as int)
}

/// The entry that the next undo reverts.
pub open spec fn undo_target(h: HistoryModel) -> RecordedOp {
    h.ops[h.pos - 1]
}

/// An undo can be performed against the buffer `b`.
pub open spec fn undo_ok(h: HistoryModel, b: Seq<char>) -> bool {
    let op = undo_target(h);
    &&& h.pos > 0
    &&& cuts_bytes(h.undo_text, op.undo.deleted_range)
    &&& cuts(b, op.undo.inserted_range)
    &&& op.undo.inserted_range.start + (op.undo.deleted_range.end - op.undo.deleted_range.start)
        <= usize::MAX
}

/// The model after an undo against the buffer `b`.
pub open spec fn undone(h: HistoryModel, b: Seq<char>) -> HistoryModel {
    let op = undo_target(h);
    let ins = op.undo.inserted_range;
    let del = op.undo.deleted_range;
    let r = h.redo_text.len() as int;
    HistoryModel {
        redo_text: h.redo_text + piece(bytes(b), ins),
        ops: h.ops.update(
            h.pos - 1,
            RecordedOp {
                undo: op.undo,
                redo: Some(
                    Ranges {
                        inserted_range: rng(ins.start as int, ins.start + (del.end - del.start)),
                        deleted_range: rng(r, r + (ins.end - ins.start)),
                    },
                ),
                prev_selection: op.prev_selection,
            },
        ),
        pos: h.pos - 1,
        ..h
    }
}

/// A redo can be performed against the buffer `b`.
pub open spec fn redo_ok(h: HistoryModel, b: Seq<char>) -> bool {
    &&& 0 <= h.pos < h.ops.len()
    &&& h.ops[h.pos].redo is Some
    &&& cuts_bytes(h.redo_text, h.ops[h.pos].redo->0.deleted_range)
    &&& cuts(b, h.ops[h.pos].redo->0.inserted_range)
}

/// The model after a redo.
pub open spec fn redone(h: HistoryModel) -> HistoryModel {
    HistoryModel { pos: h.pos + 1, ..h }
}

/// A copy of optional ranges.
fn copy_ranges(r: &Option<Ranges>) -> (c: Option<Ranges>)
    ensures
        c == *r,
{
    match r {
        None => None,
        Some(x) => Some(
            Ranges {
                inserted_range: x.inserted_range.start..x.inserted_range.end,
                deleted_range: x.deleted_range.start..x.deleted_range.end,
            },
        ),
    }
}

/// An edit that both deletes and inserts text is never merged into an earlier
/// entry: it always becomes a new entry of its own, at the end of the list.
pub proof fn lemma_mixed_edit_starts_entry(
    h: HistoryModel,
    old: Seq<char>,
    new: Seq<char>,
    sel: Selection,
    ins: Range<usize>,
)
    requires
        0 <= h.pos <= h.ops.len(),
        old.len() > 0,
        new.len() > 0,
        ins.start <= ins.end,
        ins.end - ins.start == blen(new),
        h.undo_text.len() + blen(old) <= usize::MAX,
    ensures
        ({
            let t = truncate_future(h);
            let r = recorded(h, old, new, sel, ins);
            &&& r.ops.len() == t.ops.len() + 1
            &&& r.ops.subrange(0, t.ops.len() as int) == t.ops
            &&& r.ops.last().undo.inserted_range == ins
            &&& r.ops.last().redo is None
            &&& r.ops.last().prev_selection == sel
            &&& r.pos == r.ops.len()
            &&& r.hint == GrowHint::CannotGrow
        }),
{
    lemma_take_monotone(old, 0, old.len() as int);
    lemma_take_monotone(new, 0, new.len() as int);
    assert(old.take(old.len() as int) =~= old);
    assert(new.take(new.len() as int) =~= new);
    assert(old.take(0) =~= Seq::<char>::empty());
    assert(new.take(0) =~= Seq::<char>::empty());
    lemma_empty_bytes();
    let t = truncate_future(h);
    let r = recorded(h, old, new, sel, ins);
    assert(r.ops.subrange(0, t.ops.len() as int) =~= t.ops);
}

/// Undo followed by redo leaves the buffer as it was before the undo, and
/// the history at the position it had.
pub proof fn lemma_undo_redo_identity(
    h: HistoryModel,
    undo_chars: Seq<char>,
    redo_chars: Seq<char>,
    b: Seq<char>,
    b1: Seq<char>,
)
    requires
        bytes(undo_chars) == h.undo_text,
        bytes(redo_chars) == h.redo_text,
        h.redo_text.len() + blen(b) <= usize::MAX,
        0 <= h.pos <= h.ops.len(),
        undo_ok(h, b),
        bytes(b1) == splice(
            bytes(b),
            undo_target(h).undo.inserted_range.start as int,
            undo_target(h).undo.inserted_range.end as int,
            piece(h.undo_text, undo_target(h).undo.deleted_range),
        ),
    ensures
        ({
            let h1 = undone(h, b);
            let rr = h1.ops[h1.pos].redo->0;
            &&& redo_ok(h1, b1)
            &&& splice(
                bytes(b1),
                rr.inserted_range.start as int,
                rr.inserted_range.end as int,
                piece(h1.redo_text, rr.deleted_range),
            ) == bytes(b)
            &&& rr.inserted_range.end == undo_target(h).undo.inserted_range.end + blen(b1) - blen(b)
            &&& redone(h1).pos == h.pos
            &&& redone(h1).undo_text == h.undo_text
            &&& redone(h1).ops.len() == h.ops.len()
        }),
{
    let op = undo_target(h);
    let s = op.undo.inserted_range.start as int;
    let e = op.undo.inserted_range.end as int;
    let c = op.undo.deleted_range.start as int;
    let d = op.undo.deleted_range.end as int;
    let bb = bytes(b);
    let dd = h.undo_text.subrange(c, d);
    lemma_piece(undo_chars, c, d);
    let t = decode_utf8(dd);
    lemma_splice(b, s, e, t, b1);
    lemma_piece(b, s, e);
    let x = decode_utf8(bb.subrange(s, e));
    lemma_bytes_concat(redo_chars, x);
    lemma_concat_boundary(redo_chars, x);
    lemma_ends_are_boundaries(redo_chars + x);
    let h1 = undone(h, b);
    assert(h1.redo_text =~= bytes(redo_chars + x));
    let rr = h1.ops[h1.pos].redo->0;
    assert(piece(h1.redo_text, rr.deleted_range) =~= bb.subrange(s, e));
    assert(splice(bytes(b1), s, s + (d - c), bb.subrange(s, e)) =~= bb);
}

/// An edit recorded as an entry of its own is reverted by one undo: from
/// the buffer `b` where `a..e` was replaced by `new`, the undo restores the
/// buffer before the edit and the selection `sel` from before it.
pub proof fn lemma_undo_reverts_entry(
    h: HistoryModel,
    undo_chars: Seq<char>,
    b: Seq<char>,
    b1: Seq<char>,
    a: int,
    e: int,
    new: Seq<char>,
    sel: Selection,
)
    requires
        bytes(undo_chars) == h.undo_text,
        h.undo_text.len() + blen(b) <= usize::MAX,
        0 <= h.pos <= h.ops.len(),
        boundary(b, a),
        boundary(b, e),
        a <= e,
        a + blen(new) <= usize::MAX,
        bytes(b1) == splice(bytes(b), a, e, bytes(new)),
        ({
            let old = decode_utf8(bytes(b).subrange(a, e));
            recorded(h, old, new, sel, rng(a, a + blen(new))).ops.len() == truncate_future(h).ops.len() + 1
        }),
    ensures
        ({
            let old = decode_utf8(bytes(b).subrange(a, e));
            let h1 = recorded(h, old, new, sel, rng(a, a + blen(new)));
            let op = undo_target(h1);
            &&& undo_ok(h1, b1)
            &&& splice(
                bytes(b1),
                op.undo.inserted_range.start as int,
                op.undo.inserted_range.end as int,
                piece(h1.undo_text, op.undo.deleted_range),
            ) == bytes(b)
            &&& op.prev_selection == sel
        }),
{
    let old = decode_utf8(bytes(b).subrange(a, e));
    let t = truncate_future(h);
    let h1 = recorded(h, old, new, sel, rng(a, a + blen(new)));
    lemma_piece(b, a, e);
    lemma_splice(b, a, e, new, b1);
    let u = t.undo_text;
    let u1 = decode_utf8(u);
    assert(bytes(u1) == u) by {
        encode_utf8_valid_utf8(undo_chars);
        if h.pos < h.ops.len() {
            let k = h.ops[h.pos].undo.deleted_range.start as int;
            if k <= h.undo_text.len() && vstd::utf8::is_char_boundary(h.undo_text, k) {
                vstd::utf8::valid_utf8_split(h.undo_text, k);
            }
        }
        vstd::utf8::decode_utf8_encode_utf8(u);
    }
    lemma_bytes_concat(u1, old);
    lemma_concat_boundary(u1, old);
    lemma_ends_are_boundaries(u1 + old);
    assert(h1.undo_text =~= bytes(u1 + old));
    assert(h1.ops.last().undo.deleted_range == rng(u.len() as int, (u.len() + bytes(old).len()) as int));
    assert(piece(h1.undo_text, h1.ops.last().undo.deleted_range) =~= bytes(b).subrange(a, e));
    assert(splice(bytes(b1), a, a + blen(new), bytes(b).subrange(a, e)) =~= bytes(b));
}

/// Entry `i` of `h`, undone against `after`, gives back `before`, and its
/// selection is `sel`.
pub open spec fn entry_reverts(h: HistoryModel, i: int, before: Seq<char>, after: Seq<char>, sel: Selection) -> bool {
    let op = h.ops[i];
    let ins = op.undo.inserted_range;
    let del = op.undo.deleted_range;
    &&& cuts_bytes(h.undo_text, del)
    &&& cuts(after, ins)
    &&& ins.start + (del.end - del.start) <= usize::MAX
    &&& splice(bytes(after), ins.start as int, ins.end as int, piece(h.undo_text, del)) == bytes(before)
    &&& op.prev_selection == sel
}

/// The past of `h` replays the buffers `snaps` and selections `sels`: undoing
/// entry `i` from `snaps[i + 1]` gives `snaps[i]` and the selection `sels[i]`.
pub open spec fn replays(h: HistoryModel, snaps: Seq<Seq<char>>, sels: Seq<Selection>) -> bool {
    &&& 0 <= h.pos <= h.ops.len()
    &&& snaps.len() == h.pos + 1
    &&& sels.len() == h.pos
    &&& forall|i: int| 0 <= i < h.pos ==> #[trigger] entry_reverts(h, i, snaps[i], snaps[i + 1], sels[i])
}

/// Recording an edit made at the end of the history as an entry of its own
/// extends what the history replays by the edit's buffer and selection.
pub proof fn lemma_record_extends_replay(
    h: HistoryModel,
    snaps: Seq<Seq<char>>,
    sels: Seq<Selection>,
    undo_chars: Seq<char>,
    b1: Seq<char>,
    a: int,
    e: int,
    new: Seq<char>,
    sel: Selection,
)
    requires
        replays(h, snaps, sels),
        h.pos == h.ops.len(),
        bytes(undo_chars) == h.undo_text,
        h.undo_text.len() + blen(snaps.last()) <= usize::MAX,
        boundary(snaps.last(), a),
        boundary(snaps.last(), e),
        a <= e,
        a + blen(new) <= usize::MAX,
        bytes(b1) == splice(bytes(snaps.last()), a, e, bytes(new)),
        ({
            let old = decode_utf8(bytes(snaps.last()).subrange(a, e));
            recorded(h, old, new, sel, rng(a, a + blen(new))).ops.len() == h.ops.len() + 1
        }),
    ensures
        ({
            let old = decode_utf8(bytes(snaps.last()).subrange(a, e));
            let h1 = recorded(h, old, new, sel, rng(a, a + blen(new)));
            &&& replays(h1, snaps.push(b1), sels.push(sel))
            &&& bytes(undo_chars + old) == h1.undo_text
        }),
{
    let b = snaps.last();
    let old = decode_utf8(bytes(b).subrange(a, e));
    let h1 = recorded(h, old, new, sel, rng(a, a + blen(new)));
    lemma_undo_reverts_entry(h, undo_chars, b, b1, a, e, new, sel);
    lemma_piece(b, a, e);
    lemma_bytes_concat(undo_chars, old);
    assert(h1.undo_text =~= bytes(undo_chars + old));
    assert(h1.ops.subrange(0, h.pos) =~= h.ops);
    let snaps1 = snaps.push(b1);
    let sels1 = sels.push(sel);
    assert forall|i: int| 0 <= i < h1.pos implies #[trigger] entry_reverts(h1, i, snaps1[i], snaps1[i + 1], sels1[i]) by {
        if i < h.pos {
            assert(entry_reverts(h, i, snaps[i], snaps[i + 1], sels[i]));
            assert(h1.ops[i] == h.ops[i]);
            let del = h.ops[i].undo.deleted_range;
            encode_utf8_valid_utf8(undo_chars);
            lemma_boundary_append(undo_chars, old, del.start as int);
            lemma_boundary_append(undo_chars, old, del.end as int);
            assert(piece(h1.undo_text, del) =~= piece(h.undo_text, del));
        } else {
            assert(i == h.pos);
            assert(snaps1[i] == b);
        }
    }
}

/// Undo walks the replay back one step: from the buffer `snaps[pos]` it is
/// possible, gives back `snaps[pos - 1]` and the selection `sels[pos - 1]`,
/// and the history then replays the shorter past. So `n` undos after `n`
/// edits, each recorded as an entry of its own, give back the buffer and
/// selection from before them.
pub proof fn lemma_undo_walks_back(
    h: HistoryModel,
    snaps: Seq<Seq<char>>,
    sels: Seq<Selection>,
    b1: Seq<char>,
)
    requires
        replays(h, snaps, sels),
        h.pos > 0,
        bytes(b1) == splice(
            bytes(snaps[h.pos]),
            undo_target(h).undo.inserted_range.start as int,
            undo_target(h).undo.inserted_range.end as int,
            piece(h.undo_text, undo_target(h).undo.deleted_range),
        ),
    ensures
        undo_ok(h, snaps[h.pos]),
        b1 == snaps[h.pos - 1],
        undo_target(h).prev_selection == sels[h.pos - 1],
        replays(undone(h, snaps[h.pos]), snaps.take(h.pos), sels.take(h.pos - 1)),
{
    let p = h.pos;
    let q = p - 1;
    assert(entry_reverts(h, q, snaps[q], snaps[q + 1], sels[q]));
    assert(q + 1 == p);
    lemma_bytes_injective(b1, snaps[p - 1]);
    let h1 = undone(h, snaps[p]);
    let snaps1 = snaps.take(p);
    let sels1 = sels.take(p - 1);
    assert forall|i: int| 0 <= i < h1.pos implies #[trigger] entry_reverts(h1, i, snaps1[i], snaps1[i + 1], sels1[i]) by {
        assert(entry_reverts(h, i, snaps[i], snaps[i + 1], sels[i]));
        assert(h1.ops[i] == h.ops[i]);
    }
}

impl TextEditHistory {
    pub closed spec fn model(&self) -> HistoryModel {
        HistoryModel {
            undo_text: bytes(self.undo_text@),
            redo_text: bytes(self.redo_text@),
            ops: self.history@,
            pos: self.current_position as int,
            hint: self.can_grow,
        }
    }

    /// The position never passes the end of the list.
    pub closed spec fn wf(&self) -> bool {
        self.current_position <= self.history@.len()
    }

    /// The position lies within the list of entries.
    pub proof fn lemma_wf_position(&self)
        requires
            self.wf(),
        ensures
            0 <= self.model().pos <= self.model().ops.len(),
    {
    }

    /// An empty history.
    pub fn new() -> (r: TextEditHistory)
        ensures
            r.wf(),
            r.model().ops.len() == 0,
            r.model().pos == 0,
            r.model().undo_text.len() == 0,
            r.model().redo_text.len() == 0,
            r.model().hint == GrowHint::CannotGrow,
    {
        let r = TextEditHistory {
            undo_text: String::new(),
            redo_text: String::new(),
            history: Vec::new(),
            current_position: 0,
            can_grow: GrowHint::CannotGrow,
        };
        proof {
            assert(r.undo_text@ == Seq::<char>::empty());
            assert(bytes(Seq::<char>::empty()) =~= Seq::<u8>::empty());
        }
        r
    }

    /// Whether `i` is a character boundary of `s`.
    fn is_boundary(s: &String, i: usize) -> (r: bool)
        ensures
            r == boundary(s@, i as int),
    {
        let n = byte_len(s);
        if i > n {
            return false;
        }
        s.as_str().is_char_boundary(i)
    }

    /// Record an edit that replaced `old_str` by `new_str`; `selection` is the
    /// selection before the edit and `inserted_range` the range that `new_str`
    /// now takes in the buffer. Undone entries are dropped first; the edit is
    /// then merged into the last entry where the grow hint allows it, and
    /// stored as a new entry otherwise.
    pub fn record(
        &mut self,
        old_str: &str,
        new_str: &str,
        selection: Selection,
        inserted_range: Range<usize>,
    )
        requires
            old(self).wf(),
        ensures
            final(self).wf(),
            final(self).model() == recorded(
                old(self).model(),
                old_str@,
                new_str@,
                selection,
                inserted_range,
            ),
    {
        if self.current_position < self.history.len() {
            let k = self.history[self.current_position].undo.deleted_range.start;
            if Self::is_boundary(&self.undo_text, k) {
                let n = byte_len(&self.undo_text);
                proof {
                    lemma_ends_are_boundaries(self.undo_text@);
                }
                replace_range(&mut self.undo_text, k, n, "");
                proof {
                    reveal_strlit("");
                    lemma_empty_bytes();
                    assert(bytes(self.undo_text@) =~= bytes(old(self).undo_text@).subrange(0, k as int));
                }
            }
            self.redo_text = String::new();
            self.history.truncate(self.current_position);
            proof {
                lemma_empty_bytes();
            }
        }
        let ghost t = self.model();
        proof {
            assert(t == truncate_future(old(self).model()));
        }
        let n = self.history.len();
        if n > 0 {
            let grows = match self.can_grow {
                GrowHint::GrowableInsert(size) => old_str.is_empty() && size < MAX_GROWABLE_SIZE,
                GrowHint::GrowableInsertWhitespace(size) => old_str.is_empty() && size
                    < MAX_GROWABLE_SIZE && is_all_blank(new_str),
                _ => false,
            };
            let shrinks = match self.can_grow {
                GrowHint::GrowableDelete(size) => inserted_range.start == inserted_range.end
                    && size < MAX_GROWABLE_SIZE,
                GrowHint::GrowableDeleteWhitespace(size) => inserted_range.start
                    == inserted_range.end && size < MAX_GROWABLE_SIZE && is_all_blank(old_str),
                _ => false,
            };
            if grows {
                let last = &self.history[n - 1];
                let op = RecordedOp {
                    undo: Ranges {
                        inserted_range: last.undo.inserted_range.start..inserted_range.end,
                        deleted_range: last.undo.deleted_range.start..last.undo.deleted_range.end,
                    },
                    redo: copy_ranges(&last.redo),
                    prev_selection: last.prev_selection,
                };
                self.history.set(n - 1, op);
            } else if shrinks && Self::is_boundary(
                &self.undo_text,
                self.history[n - 1].undo.deleted_range.start,
            ) {
                self.merge_delete(old_str, inserted_range);
            } else {
                self.push_new(old_str, selection, inserted_range);
            }
        } else {
            self.push_new(old_str, selection, inserted_range);
        }
        proof {
            assert(self.history@.len() > 0);
        }
        self.set_grow_hint(new_str, old_str);
        proof {
            assert(self.model() =~= recorded(
                old(self).model(),
                old_str@,
                new_str@,
                selection,
                inserted_range,
            ));
        }
    }

    /// Store `old_str` and push a new entry.
    pub fn push_new(&mut self, old_str: &str, selection: Selection, inserted_range: Range<usize>)
        requires
            old(self).wf(),
            old(self).model().pos == old(self).model().ops.len(),
        ensures
            final(self).wf(),
            final(self).model() == (HistoryModel {
                undo_text: old(self).model().undo_text + bytes(old_str@),
                ops: old(self).model().ops.push(
                    RecordedOp {
                        undo: Ranges {
                            inserted_range,
                            deleted_range: rng(
                                old(self).model().undo_text.len() as int,
                                (old(self).model().undo_text.len() + bytes(old_str@).len()) as int,
                            ),
                        },
                        redo: None,
                        prev_selection: selection,
                    },
                ),
                pos: old(self).model().pos + 1,
                ..old(self).model()
            }),
    {
        let start = byte_len(&self.undo_text);
        proof {
            lemma_ends_are_boundaries(self.undo_text@);
        }
        replace_range(&mut self.undo_text, start, start, old_str);
        let end = byte_len(&self.undo_text);
        proof {
            assert(bytes(self.undo_text@) =~= bytes(old(self).undo_text@) + bytes(old_str@));
        }
        self.history.push(
            RecordedOp {
                prev_selection: selection,
                undo: Ranges { inserted_range, deleted_range: start..end },
                redo: None,
            },
        );
        self.current_position = self.history.len();
    }

    /// Merge a deletion into the last entry: `old_str` goes in front of the
    /// text that entry already stores.
    fn merge_delete(&mut self, old_str: &str, inserted_range: Range<usize>)
        requires
            old(self).wf(),
            old(self).history@.len() > 0,
            boundary(old(self).undo_text@, old(self).history@.last().undo.deleted_range.start as int),
        ensures
            final(self).wf(),
            final(self).current_position == old(self).current_position,
            final(self).can_grow == old(self).can_grow,
            final(self).redo_text == old(self).redo_text,
            ({
                let u = bytes(old(self).undo_text@);
                let last = old(self).history@.last();
                let s = last.undo.deleted_range.start as int;
                let u2 = u.subrange(0, s) + bytes(old_str@) + u.subrange(s, u.len() as int);
                &&& bytes(final(self).undo_text@) == u2
                &&& final(self).history@ == old(self).history@.update(
                    old(self).history@.len() - 1,
                    RecordedOp {
                        undo: Ranges { inserted_range, deleted_range: rng(s, u2.len() as int) },
                        redo: last.redo,
                        prev_selection: last.prev_selection,
                    },
                )
            }),
    {
        let n = self.history.len();
        let start = self.history[n - 1].undo.deleted_range.start;
        replace_range(&mut self.undo_text, start, start, old_str);
        let end = byte_len(&self.undo_text);
        let last = &self.history[n - 1];
        let op = RecordedOp {
            undo: Ranges { inserted_range, deleted_range: start..end },
            redo: copy_ranges(&last.redo),
            prev_selection: last.prev_selection,
        };
        self.history.set(n - 1, op);
        proof {
            let u = bytes(old(self).undo_text@);
            assert(u.subrange(0, start as int) + bytes(old_str@) + u.subrange(start as int, u.len() as int)
                =~= u.subrange(0, start as int) + bytes(old_str@) + u.subrange(start as int, u.len() as int));
        }
    }

    /// Set the grow hint from the last entry and the edit just recorded.
    fn set_grow_hint(&mut self, new_str: &str, old_str: &str)
        requires
            old(self).history@.len() > 0,
        ensures
            final(self).can_grow == next_hint(old(self).history@.last().undo, old_str@, new_str@),
            final(self).undo_text == old(self).undo_text,
            final(self).redo_text == old(self).redo_text,
            final(self).history == old(self).history,
            final(self).current_position == old(self).current_position,
    {
        let n = self.history.len();
        let last = &self.history[n - 1].undo;
        let hint = if last.deleted_range.start == last.deleted_range.end {
            let len = new_str.as_bytes().len();
            match last_char(new_str) {
                Some(c) => if is_whitespace(c) {
                    GrowHint::GrowableInsertWhitespace(len)
                } else {
                    GrowHint::GrowableInsert(len)
                },
                None => GrowHint::CannotGrow,
            }
        } else if last.inserted_range.start == last.inserted_range.end {
            let len = old_str.as_bytes().len();
            match last_char(old_str) {
                Some(c) => if is_whitespace(c) {
                    GrowHint::GrowableDeleteWhitespace(len)
                } else {
                    GrowHint::GrowableDelete(len)
                },
                None => GrowHint::CannotGrow,
            }
        } else {
            GrowHint::CannotGrow
        };
        self.can_grow = hint;
    }

    /// Step back over the last entry. Returns what the buffer must undergo,
    /// or `None` where there is nothing to undo or the stored ranges do not
    /// cut `buffer` and the stored text at character boundaries. The entry's
    /// redo data is taken from `buffer`.
    pub fn undo(&mut self, buffer: &String) -> (r: Option<TextRestore>)
        requires
            old(self).wf(),
        ensures
            final(self).wf(),
            r is Some <==> undo_ok(old(self).model(), buffer@),
            r is None ==> final(self).model() == old(self).model(),
            r matches Some(t) ==> {
                let op = undo_target(old(self).model());
                &&& t.range_to_clear == op.undo.inserted_range
                &&& bytes(t.text_to_restore@) == piece(
                    old(self).model().undo_text,
                    op.undo.deleted_range,
                )
                &&& t.prev_selection == op.prev_selection
                &&& final(self).model() == undone(old(self).model(), buffer@)
            },
    {
        if self.current_position == 0 {
            return None;
        }
        let p = self.current_position - 1;
        let ins_start = self.history[p].undo.inserted_range.start;
        let ins_end = self.history[p].undo.inserted_range.end;
        let del_start = self.history[p].undo.deleted_range.start;
        let del_end = self.history[p].undo.deleted_range.end;
        if !(del_start <= del_end && Self::is_boundary(&self.undo_text, del_start)
            && Self::is_boundary(&self.undo_text, del_end) && ins_start <= ins_end
            && Self::is_boundary(buffer, ins_start) && Self::is_boundary(buffer, ins_end)) {
            return None;
        }
        if ins_start > usize::MAX - (del_end - del_start) {
            return None;
        }
        let text_to_restore = slice(self.undo_text.as_str(), del_start, del_end).to_owned();
        let redo_piece = slice(buffer.as_str(), ins_start, ins_end);
        let r_start = byte_len(&self.redo_text);
        proof {
            lemma_ends_are_boundaries(self.redo_text@);
        }
        replace_range(&mut self.redo_text, r_start, r_start, redo_piece);
        let r_end = byte_len(&self.redo_text);
        proof {
            assert(bytes(self.redo_text@) =~= bytes(old(self).redo_text@) + piece(bytes(buffer@), ins_start..ins_end));
        }
        let prev_selection = self.history[p].prev_selection;
        let op = RecordedOp {
            undo: Ranges { inserted_range: ins_start..ins_end, deleted_range: del_start..del_end },
            redo: Some(
                Ranges {
                    inserted_range: ins_start..ins_start + (del_end - del_start),
                    deleted_range: r_start..r_end,
                },
            ),
            prev_selection,
        };
        self.history.set(p, op);
        self.current_position = p;
        proof {
            assert(self.model() =~= undone(old(self).model(), buffer@));
        }
        Some(TextRestore { range_to_clear: ins_start..ins_end, text_to_restore, prev_selection })
    }

    /// Step forward over the next entry, which an undo must have filled.
    /// Returns what `buffer` must undergo, or `None` where there is nothing
    /// to redo or the stored ranges do not cut at character boundaries.
    pub fn redo(&mut self, buffer: &String) -> (r: Option<TextRestore>)
        requires
            old(self).wf(),
        ensures
            final(self).wf(),
            r is Some <==> redo_ok(old(self).model(), buffer@),
            r is None ==> final(self).model() == old(self).model(),
            r matches Some(t) ==> {
                let op = old(self).model().ops[old(self).model().pos];
                let rr = op.redo->0;
                &&& t.range_to_clear == rr.inserted_range
                &&& bytes(t.text_to_restore@) == piece(old(self).model().redo_text, rr.deleted_range)
                &&& t.prev_selection == op.prev_selection
                &&& final(self).model() == redone(old(self).model())
            },
    {
        let p = self.current_position;
        if p >= self.history.len() {
            return None;
        }
        match &self.history[p].redo {
            None => None,
            Some(rr) => {
                let ds = rr.deleted_range.start;
                let de = rr.deleted_range.end;
                if !(ds <= de && Self::is_boundary(&self.redo_text, ds) && Self::is_boundary(
                    &self.redo_text,
                    de,
                )) {
                    return None;
                }
                let is = rr.inserted_range.start;
                let ie = rr.inserted_range.end;
                if !(is <= ie && Self::is_boundary(buffer, is) && Self::is_boundary(buffer, ie)) {
                    return None;
                }
                let text_to_restore = slice(self.redo_text.as_str(), ds, de).to_owned();
                let range_to_clear = rr.inserted_range.start..rr.inserted_range.end;
                let prev_selection = self.history[p].prev_selection;
                self.current_position = p + 1;
                proof {
                    assert(self.model() =~= redone(old(self).model()));
                }
                Some(TextRestore { range_to_clear, text_to_restore, prev_selection })
            },
        }
    }

    /// Number of entries.
    pub fn len(&self) -> (r: usize)
        ensures
            r == self.model().ops.len(),
    {
        self.history.len()
    }

    /// Position between past and future entries.
    pub fn position(&self) -> (r: usize)
        ensures
            r == self.model().pos,
    {
        self.current_position
    }
}

} // verus!
