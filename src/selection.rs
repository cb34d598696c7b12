//! Cursor and selection values: byte offsets into a widget's buffer.
//!
//! The layout engine answers geometric queries (points, lines, words); what the
//! widget logic itself reads of a selection is held here as plain values.
use std::ops::Range;
use vstd::prelude::*;

verus! {

/// Which side of a cluster boundary a cursor belongs to.
#[derive(Clone, Copy, Debug, PartialEq, Eq, Structural)]
pub enum Affinity {
    Downstream,
    Upstream,
}

/// A position in the buffer: a byte index and its affinity.
#[derive(Clone, Copy, Debug, PartialEq, Eq, Structural)]
pub struct Cursor {
    pub index: usize,
    pub affinity: Affinity,
}

/// A selection: the anchor where it started and the focus where it ends.
#[derive(Clone, Copy, Debug, PartialEq, Eq, Structural)]
pub struct Selection {
    pub anchor: Cursor,
    pub focus: Cursor,
}

impl Cursor {
    /// A cursor at `index` with the given affinity.
    pub fn from_byte_index(index: usize, affinity: Affinity) -> (r: Cursor)
        ensures
            r == (Cursor { index, affinity }),
    {
        Cursor { index, affinity }
    }
}

impl Selection {
    /// Lower end of the selected byte range.
    pub open spec fn start(self) -> int {
        if self.anchor.index <= self.focus.index {
            self.anchor.index as int
        } else {
            self.focus.index as int
        }
    }

    /// Upper end of the selected byte range.
    pub open spec fn end(self) -> int {
        if self.anchor.index <= self.focus.index {
            self.focus.index as int
        } else {
            self.anchor.index as int
        }
    }

    /// A collapsed selection at `c`.
    pub open spec fn caret(c: Cursor) -> Selection {
        Selection { anchor: c, focus: c }
    }

    /// The collapsed selection at the start of the buffer.
    pub open spec fn zero_spec() -> Selection {
        Selection::caret(Cursor { index: 0, affinity: Affinity::Downstream })
    }

    /// A selection from `anchor` to `focus`.
    pub fn new(anchor: Cursor, focus: Cursor) -> (r: Selection)
        ensures
            r == (Selection { anchor, focus }),
    {
        Selection { anchor, focus }
    }

    /// A collapsed selection at `c`.
    pub fn from_cursor(c: Cursor) -> (r: Selection)
        ensures
            r == Selection::caret(c),
    {
        Selection { anchor: c, focus: c }
    }

    /// The collapsed selection at the start of the buffer.
    pub fn zero() -> (r: Selection)
        ensures
            r == Selection::zero_spec(),
    {
        Selection::from_cursor(Cursor { index: 0, affinity: Affinity::Downstream })
    }

    /// Whether anchor and focus are at the same byte index.
    pub fn is_collapsed(&self) -> (r: bool)
        ensures
            r == (self.anchor.index == self.focus.index),
    {
        self.anchor.index == self.focus.index
    }

    /// The selected byte range, lower end first.
    pub fn text_range(&self) -> (r: Range<usize>)
        ensures
            r.start == self.start(),
            r.end == self.end(),
    {
        if self.anchor.index <= self.focus.index {
            self.anchor.index..self.focus.index
        } else {
            self.focus.index..self.anchor.index
        }
    }

    /// The selection collapsed to its focus.
    pub fn collapse(&self) -> (r: Selection)
        ensures
            r == Selection::caret(self.focus),
    {
        Selection::from_cursor(self.focus)
    }

    /// The selection collapsed to its anchor.
    pub fn collapse_to_anchor(&self) -> (r: Selection)
        ensures
            r == Selection::caret(self.anchor),
    {
        Selection::from_cursor(self.anchor)
    }

    /// The focus cursor.
    pub fn focus(&self) -> (r: Cursor)
        ensures
            r == self.focus,
    {
        self.focus
    }
}

} // verus!
