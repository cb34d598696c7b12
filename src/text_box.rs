//! The display-only widget record: text, geometry, visibility, layout cache
//! flags and selection state.
//!
//! Geometry is held in whole logical pixels; `depth` orders widgets, lower is
//! frontmost. What only the layout engine knows (the laid-out content size)
//! is reported by the host after each layout rebuild.
use crate::buffer::{boundary, bytes, byte_len, slice};
use crate::events::{Key, KeyEvent, Modifiers, NamedKey, Navigation, TextInputState, WindowEvent};
use crate::selection::Selection;
use vstd::prelude::*;

verus! {

/// Horizontal tolerance of the bounding-box hit test, in pixels.
pub const X_TOLERANCE: i64 = 35;

/// Handle for a text style.
#[derive(Debug)]
pub struct StyleHandle {
    i: usize,
}

/// Handle of the default style.
pub const DEFAULT_STYLE_I: usize = 0;

impl StyleHandle {
    pub closed spec fn index_spec(&self) -> nat {
        self.i as nat
    }

    /// A second handle to the same style slot.
    pub fn sneak_clone(&self) -> (r: StyleHandle)
        ensures
            r.index_spec() == self.index_spec(),
    {
        StyleHandle { i: self.i }
    }

    /// Handle of the default style.
    pub fn default_style() -> (r: StyleHandle)
        ensures
            r.index_spec() == DEFAULT_STYLE_I,
    {
        StyleHandle { i: DEFAULT_STYLE_I }
    }

    /// The slot index.
    pub fn index(&self) -> (r: usize)
        ensures
            r == self.index_spec(),
    {
        self.i
    }

    pub(crate) fn from_index(i: usize) -> (r: StyleHandle)
        ensures
            r.index_spec() == i,
    {
        StyleHandle { i }
    }
}

/// Selection state of a widget.
#[derive(Debug)]
pub struct SelectionState {
    pub selection: Selection,
    /// Selection saved when a shift-click extension starts.
    pub prev_anchor: Option<Selection>,
    pub pointer_down: bool,
}

impl SelectionState {
    /// A collapsed selection at the start, pointer up.
    pub fn new() -> (r: SelectionState)
        ensures
            r.selection == Selection::zero_spec(),
            r.prev_anchor is None,
            !r.pointer_down,
    {
        SelectionState { selection: Selection::zero(), prev_anchor: None, pointer_down: false }
    }

    /// Replace the selection and forget any saved anchor.
    pub fn set_selection(&mut self, new_sel: Selection)
        ensures
            final(self).selection == new_sel,
            final(self).prev_anchor is None,
            final(self).pointer_down == old(self).pointer_down,
    {
        self.selection = new_sel;
        self.prev_anchor = None;
    }

    /// The selection that a shift-click extends: the saved anchor if any,
    /// else the current selection.
    pub fn shift_click_base(&self) -> (r: Selection)
        ensures
            r == (match self.prev_anchor {
                Some(p) => p,
                None => self.selection,
            }),
    {
        match self.prev_anchor {
            Some(p) => p,
            None => self.selection,
        }
    }

    /// Shift-click: replace the selection by `extended` (computed by the
    /// layout from [`Self::shift_click_base`]), saving the current selection
    /// as the anchor if none is saved yet.
    pub fn extend_selection_with_anchor(&mut self, extended: Selection)
        ensures
            final(self).selection == extended,
            final(self).prev_anchor == (match old(self).prev_anchor {
                Some(p) => Some(p),
                None => Some(old(self).selection),
            }),
            final(self).pointer_down == old(self).pointer_down,
    {
        if self.prev_anchor.is_none() {
            self.prev_anchor = Some(self.selection);
        }
        self.selection = extended;
    }
}

/// `k` is the one-byte character key `c`.
pub open spec fn is_char_key(k: Key, c: u8) -> bool {
    match k {
        Key::Character(s) => bytes(s@) == seq![c],
        _ => false,
    }
}

/// Whether `k` is the one-byte character key `c`.
pub fn char_key(k: &Key, c: u8) -> (r: bool)
    ensures
        r == is_char_key(*k, c),
{
    match k {
        Key::Character(s) => {
            let b = s.as_str().as_bytes();
            proof {
                assert(b@ == bytes(s@));
            }
            if b.len() == 1 && b[0] == c {
                proof {
                    assert(b@ =~= seq![c]);
                }
                true
            } else {
                false
            }
        },
        _ => false,
    }
}

/// The selection after a Shift+key extension, if `k` is one.
pub open spec fn shift_target(k: Key, action: bool, nav: Navigation) -> Option<Selection> {
    match k {
        Key::Named(NamedKey::ArrowLeft) => Some(
            if action {
                nav.word_left.extended
            } else {
                nav.left.extended
            },
        ),
        Key::Named(NamedKey::ArrowRight) => Some(
            if action {
                nav.word_right.extended
            } else {
                nav.right.extended
            },
        ),
        Key::Named(NamedKey::ArrowUp) => Some(nav.up.extended),
        Key::Named(NamedKey::ArrowDown) => Some(nav.down.extended),
        Key::Named(NamedKey::Home) => Some(
            if action {
                nav.text_start.extended
            } else {
                nav.line_start.extended
            },
        ),
        Key::Named(NamedKey::End) => Some(
            if action {
                nav.text_end.extended
            } else {
                nav.line_end.extended
            },
        ),
        _ => None,
    }
}

/// The selection a left press picks for `click_count` (word, line, or caret;
/// with Shift, the extension from the saved anchor).
pub open spec fn press_target(click_count: u32, shift: bool, p: crate::events::PointSelections) -> Selection {
    if click_count == 2 {
        p.word
    } else if click_count == 3 {
        p.line
    } else if shift {
        p.extended_from_anchor
    } else {
        p.caret
    }
}

/// The selection state after an event: a left press inside selects by click
/// count (caret, word, line, or with Shift the extension from the saved
/// anchor), one outside collapses to the focus; a release lifts the pointer;
/// a move with the pointer down extends; with the action modifier `a`
/// selects all; Shift with an arrow, Home or End extends. Nothing else
/// changes.
pub open spec fn sel_after(
    o: SelectionState,
    event: WindowEvent,
    input: TextInputState,
    nav: Navigation,
    inside: bool,
) -> SelectionState {
    match event {
        WindowEvent::MouseInput { pressed, left } => if pressed && left {
            if !inside {
                SelectionState {
                    selection: Selection::caret(o.selection.focus),
                    prev_anchor: None,
                    pointer_down: false,
                }
            } else {
                match nav.point {
                    Some(p) => if input.click_count == 2 {
                        SelectionState { selection: p.word, prev_anchor: None, pointer_down: true }
                    } else if input.click_count == 3 {
                        SelectionState { selection: p.line, prev_anchor: None, pointer_down: true }
                    } else if input.modifiers.shift {
                        SelectionState {
                            selection: p.extended_from_anchor,
                            prev_anchor: match o.prev_anchor {
                                Some(a) => Some(a),
                                None => Some(o.selection),
                            },
                            pointer_down: true,
                        }
                    } else {
                        SelectionState { selection: p.caret, prev_anchor: None, pointer_down: true }
                    },
                    None => SelectionState { pointer_down: true, ..o },
                }
            }
        } else if !pressed {
            SelectionState { pointer_down: false, ..o }
        } else {
            o
        },
        WindowEvent::CursorMoved { .. } => if o.pointer_down {
            match nav.point {
                Some(p) => SelectionState { selection: p.extended, prev_anchor: None, ..o },
                None => o,
            }
        } else {
            o
        },
        WindowEvent::KeyboardInput(k) => if !k.pressed {
            o
        } else if input.modifiers.action && is_char_key(k.key_without_modifiers, 97u8) {
            SelectionState { selection: nav.all, ..o }
        } else if input.modifiers.shift && shift_target(k.logical_key, input.modifiers.action, nav) is Some {
            SelectionState {
                selection: shift_target(k.logical_key, input.modifiers.action, nav)->0,
                ..o
            }
        } else {
            o
        },
        _ => o,
    }
}

/// Whether the event copies the selection: a press of `c` with the action
/// modifier and without Shift, while text is selected.
pub open spec fn copies(o: TextBox, event: WindowEvent, input: TextInputState) -> bool {
    match event {
        WindowEvent::KeyboardInput(k) => k.pressed && input.modifiers.action && !input.modifiers.shift
            && !is_char_key(k.key_without_modifiers, 97u8) && is_char_key(k.key_without_modifiers, 99u8)
            && o.has_selected_text(),
        _ => false,
    }
}

/// The effect of [`TextBox::handle_event`].
pub open spec fn box_event_post(o: TextBox, n: TextBox, event: WindowEvent, input: TextInputState, nav: Navigation, r: (bool, Option<String>)) -> bool {
    &&& o.hidden ==> n == o && !r.0 && r.1 is None
    &&& !o.hidden ==> {
        &&& n == (TextBox {
            selection: sel_after(
                o.selection,
                event,
                input,
                nav,
                o.in_bounding_box(input.cursor_pos),
            ),
            ..o
        })
        &&& (r.1 is Some <==> copies(o, event, input))
        &&& (r.1 matches Some(t) ==> bytes(t@) == bytes(o.text@).subrange(
            o.selection.selection.start(),
            o.selection.selection.end(),
        ))
        &&& r.0 == crate::edit_events::decorations_differ(
            o.selection.selection,
            n.selection.selection,
            false,
            false,
            false,
        )
    }
}

/// A display-only text widget.
#[derive(Debug)]
pub struct TextBox {
    pub text: String,
    pub style: StyleHandle,
    /// Style version seen at the last layout rebuild.
    pub style_id: u64,
    pub left: i64,
    pub top: i64,
    pub width: i64,
    pub height: i64,
    pub depth: i64,
    /// Wrap width.
    pub max_advance: i64,
    /// Clip rectangle: left, top, right, bottom.
    pub clip_rect: Option<(i64, i64, i64, i64)>,
    pub auto_clip: bool,
    pub fadeout_clipping: bool,
    pub hidden: bool,
    pub can_hide: bool,
    pub last_frame_touched: u64,
    pub needs_relayout: bool,
    pub selection: SelectionState,
    pub scroll_offset: i64,
    /// Width of the laid-out content, as the layout engine reported it.
    pub content_width: i64,
    /// Height of the laid-out content.
    pub content_height: i64,
    /// Width of the laid-out text on one line.
    pub full_width: i64,
}

impl TextBox {
    /// A visible widget with `text` at `pos`, of `size`, at `depth`, wrapping
    /// at its width, with the default style, needing a layout.
    pub fn new(text: String, pos: (i64, i64), size: (i64, i64), depth: i64) -> (r: TextBox)
        ensures
            r.text@ == text@,
            r.left == pos.0 && r.top == pos.1,
            r.width == size.0 && r.height == size.1,
            r.max_advance == size.0,
            r.depth == depth,
            r.style.index_spec() == DEFAULT_STYLE_I,
            r.style_id == 0,
            !r.hidden && !r.can_hide,
            r.last_frame_touched == 0,
            r.needs_relayout,
            r.selection.selection == Selection::zero_spec(),
            r.selection.prev_anchor is None,
            !r.selection.pointer_down,
            r.scroll_offset == 0,
            r.clip_rect is None,
            !r.auto_clip && !r.fadeout_clipping,
    {
        TextBox {
            text,
            style: StyleHandle { i: DEFAULT_STYLE_I },
            style_id: 0,
            left: pos.0,
            top: pos.1,
            width: size.0,
            height: size.1,
            depth,
            max_advance: size.0,
            clip_rect: None,
            auto_clip: false,
            fadeout_clipping: false,
            hidden: false,
            can_hide: false,
            last_frame_touched: 0,
            needs_relayout: true,
            selection: SelectionState::new(),
            scroll_offset: 0,
            content_width: 0,
            content_height: 0,
            full_width: 0,
        }
    }

    pub open spec fn pos_spec(&self) -> (i64, i64) {
        (self.left, self.top)
    }

    /// `o` is at the same place as `self`, with the same visibility.
    pub open spec fn same_place(&self, o: TextBox) -> bool {
        &&& o.hidden == self.hidden
        &&& o.last_frame_touched == self.last_frame_touched
        &&& o.can_hide == self.can_hide
        &&& o.depth == self.depth
        &&& o.left == self.left
        &&& o.top == self.top
        &&& o.width == self.width
        &&& o.height == self.height
        &&& o.content_width == self.content_width
        &&& o.content_height == self.content_height
    }

    /// Whether `p` falls inside the widget's rectangle.
    pub open spec fn in_full_rect(&self, p: (i64, i64)) -> bool {
        self.left <= p.0 < self.left + self.width && self.top <= p.1 < self.top + self.height
    }

    /// Whether `p` falls on the laid-out text, with the horizontal tolerance.
    pub open spec fn in_bounding_box(&self, p: (i64, i64)) -> bool {
        let x = p.0 - self.left;
        let y = p.1 - self.top;
        -X_TOLERANCE < x < self.content_width + X_TOLERANCE && 0 < y < self.content_height
    }

    /// The selection is not collapsed and cuts the text at character boundaries.
    pub open spec fn has_selected_text(&self) -> bool {
        let s = self.selection.selection;
        s.start() < s.end() && boundary(self.text@, s.start()) && boundary(self.text@, s.end())
    }

    /// Rectangle test against the widget's full size.
    pub fn hit_full_rect(&self, p: (i64, i64)) -> (r: bool)
        ensures
            r == self.in_full_rect(p),
    {
        let x = p.0 as i128;
        let y = p.1 as i128;
        self.left as i128 <= x && x < self.left as i128 + self.width as i128 && self.top as i128
            <= y && y < self.top as i128 + self.height as i128
    }

    /// Rectangle test against the laid-out text, tolerant on `x`.
    pub fn hit_bounding_box(&self, p: (i64, i64)) -> (r: bool)
        ensures
            r == self.in_bounding_box(p),
    {
        let x = p.0 as i128 - self.left as i128;
        let y = p.1 as i128 - self.top as i128;
        -(X_TOLERANCE as i128) < x && x < self.content_width as i128 + X_TOLERANCE as i128 && 0
            < y && y < self.content_height as i128
    }

    /// Collapse the selection to its anchor and forget the saved anchor.
    pub fn reset_selection(&mut self)
        ensures
            final(self).selection.selection == Selection::caret(
                old(self).selection.selection.anchor,
            ),
            final(self).selection.prev_anchor is None,
            *final(self) == (TextBox { selection: final(self).selection, ..*old(self) }),
    {
        let collapsed = self.selection.selection.collapse_to_anchor();
        self.selection.set_selection(collapsed);
    }

    /// Replace the selection and forget the saved anchor.
    pub fn set_selection(&mut self, sel: Selection)
        ensures
            final(self).selection.selection == sel,
            final(self).selection.prev_anchor is None,
            final(self).text == old(self).text,
    {
        self.selection.set_selection(sel);
    }

    /// The selected text, if the selection is not collapsed and cuts the
    /// text at character boundaries.
    pub fn selected_text(&self) -> (r: Option<&str>)
        ensures
            r is Some <==> self.has_selected_text(),
            r matches Some(t) ==> bytes(t@) == bytes(self.text@).subrange(
                self.selection.selection.start(),
                self.selection.selection.end(),
            ),
    {
        let range = self.selection.selection.text_range();
        if range.start >= range.end {
            return None;
        }
        if !is_boundary(&self.text, range.start) || !is_boundary(&self.text, range.end) {
            return None;
        }
        Some(slice(self.text.as_str(), range.start, range.end))
    }

    /// Selection handling shared by both widget kinds. A left press inside
    /// (`inside`) sets the pointer down and selects by click count; one
    /// outside collapses the selection. A release lifts the pointer; a move
    /// with the pointer down extends the selection. With the action modifier,
    /// `c` copies the selection (returned) and `a` selects all; Shift with an
    /// arrow, Home or End extends the selection.
    pub fn handle_selection_event(
        &mut self,
        event: &WindowEvent,
        input: &TextInputState,
        nav: &Navigation,
        inside: bool,
    ) -> (copied: Option<String>)
        ensures
            *final(self) == (TextBox {
                selection: sel_after(old(self).selection, *event, *input, *nav, inside),
                ..*old(self)
            }),
            copied is Some <==> copies(*old(self), *event, *input),
            copied matches Some(t) ==> bytes(t@) == bytes(old(self).text@).subrange(
                old(self).selection.selection.start(),
                old(self).selection.selection.end(),
            ),
    {
        let mods = input.modifiers;
        match event {
            WindowEvent::MouseInput { pressed, left } => {
                if *pressed && *left {
                    if !inside {
                        let collapsed = self.selection.selection.collapse();
                        self.selection.set_selection(collapsed);
                        self.selection.pointer_down = false;
                    } else {
                        self.selection.pointer_down = true;
                        if let Some(p) = &nav.point {
                            if input.click_count == 2 {
                                self.selection.set_selection(p.word);
                            } else if input.click_count == 3 {
                                self.selection.set_selection(p.line);
                            } else if mods.shift {
                                self.selection.extend_selection_with_anchor(p.extended_from_anchor);
                            } else {
                                self.selection.set_selection(p.caret);
                            }
                        }
                    }
                } else if !*pressed {
                    self.selection.pointer_down = false;
                }
                None
            },
            WindowEvent::CursorMoved { .. } => {
                if self.selection.pointer_down {
                    if let Some(p) = &nav.point {
                        self.selection.set_selection(p.extended);
                    }
                }
                None
            },
            WindowEvent::KeyboardInput(k) => {
                if !k.pressed {
                    return None;
                }
                let mut copied = None;
                if mods.action && char_key(&k.key_without_modifiers, 97u8) {
                    self.selection.selection = nav.all;
                    return None;
                }
                if mods.action && !mods.shift && char_key(&k.key_without_modifiers, 99u8) {
                    if let Some(t) = self.selected_text() {
                        copied = Some(t.to_owned());
                    }
                }
                if mods.shift {
                    let target = match &k.logical_key {
                        Key::Named(NamedKey::ArrowLeft) => Some(
                            if mods.action {
                                nav.word_left.extended
                            } else {
                                nav.left.extended
                            },
                        ),
                        Key::Named(NamedKey::ArrowRight) => Some(
                            if mods.action {
                                nav.word_right.extended
                            } else {
                                nav.right.extended
                            },
                        ),
                        Key::Named(NamedKey::ArrowUp) => Some(nav.up.extended),
                        Key::Named(NamedKey::ArrowDown) => Some(nav.down.extended),
                        Key::Named(NamedKey::Home) => Some(
                            if mods.action {
                                nav.text_start.extended
                            } else {
                                nav.line_start.extended
                            },
                        ),
                        Key::Named(NamedKey::End) => Some(
                            if mods.action {
                                nav.text_end.extended
                            } else {
                                nav.line_end.extended
                            },
                        ),
                        _ => None,
                    };
                    if let Some(t) = target {
                        self.selection.selection = t;
                    }
                }
                copied
            },
            _ => None,
        }
    }

    /// Handle an event while focused: selection handling against the
    /// laid-out text, and copy. A hidden box ignores it. Decorations change
    /// only when the selected range changes between non-collapsed states.
    pub fn handle_event(
        &mut self,
        event: &WindowEvent,
        input: &TextInputState,
        nav: &Navigation,
    ) -> (r: (bool, Option<String>))
        ensures
            box_event_post(*old(self), *final(self), *event, *input, *nav, r),
    {
        if self.hidden {
            return (false, None);
        }
        let initial = self.selection.selection;
        let inside = self.hit_bounding_box(input.cursor_pos);
        let copied = self.handle_selection_event(event, input, nav, inside);
        let changed = crate::edit_events::selection_decorations_changed(
            initial,
            self.selection.selection,
            false,
            false,
            false,
        );
        (changed, copied)
    }

    /// Move the widget.
    pub fn set_pos(&mut self, pos: (i64, i64))
        ensures
            *final(self) == (TextBox { left: pos.0, top: pos.1, ..*old(self) }),
    {
        self.left = pos.0;
        self.top = pos.1;
    }

    /// Resize the widget; the text wraps at the new width.
    pub fn set_size(&mut self, size: (i64, i64))
        ensures
            *final(self) == (TextBox {
                width: size.0,
                height: size.1,
                max_advance: size.0,
                needs_relayout: true,
                ..*old(self)
            }),
    {
        self.width = size.0;
        self.height = size.1;
        self.max_advance = size.0;
        self.needs_relayout = true;
    }

    pub fn set_hidden(&mut self, hidden: bool)
        ensures
            *final(self) == (TextBox { hidden, ..*old(self) }),
    {
        self.hidden = hidden;
    }

    pub fn set_can_hide(&mut self, can_hide: bool)
        ensures
            *final(self) == (TextBox { can_hide, ..*old(self) }),
    {
        self.can_hide = can_hide;
    }

    pub fn set_depth(&mut self, depth: i64)
        ensures
            *final(self) == (TextBox { depth, ..*old(self) }),
    {
        self.depth = depth;
    }

    pub fn set_clip_rect(&mut self, clip_rect: Option<(i64, i64, i64, i64)>)
        ensures
            *final(self) == (TextBox { clip_rect, ..*old(self) }),
    {
        self.clip_rect = clip_rect;
    }

    pub fn set_clip_rect_with_fadeout(&mut self, clip_rect: Option<(i64, i64, i64, i64)>, fadeout_clipping: bool)
        ensures
            *final(self) == (TextBox { clip_rect, fadeout_clipping, ..*old(self) }),
    {
        self.clip_rect = clip_rect;
        self.fadeout_clipping = fadeout_clipping;
    }

    pub fn set_fadeout_clipping(&mut self, fadeout_clipping: bool)
        ensures
            *final(self) == (TextBox { fadeout_clipping, ..*old(self) }),
    {
        self.fadeout_clipping = fadeout_clipping;
    }

    pub fn set_auto_clip(&mut self, auto_clip: bool)
        ensures
            *final(self) == (TextBox { auto_clip, ..*old(self) }),
    {
        self.auto_clip = auto_clip;
    }

    pub fn set_scroll_offset(&mut self, offset: i64)
        ensures
            *final(self) == (TextBox { scroll_offset: offset, ..*old(self) }),
    {
        self.scroll_offset = offset;
    }

    /// Use another style; the text is laid out again.
    pub fn set_style(&mut self, style: &StyleHandle)
        ensures
            final(self).style.index_spec() == style.index_spec(),
            final(self).needs_relayout,
            final(self).text == old(self).text,
            final(self).same_place(*old(self)),
    {
        self.style = style.sneak_clone();
        self.needs_relayout = true;
    }

    pub fn clip_rect(&self) -> (r: Option<(i64, i64, i64, i64)>)
        ensures
            r == self.clip_rect,
    {
        self.clip_rect
    }

    pub fn fadeout_clipping(&self) -> (r: bool)
        ensures
            r == self.fadeout_clipping,
    {
        self.fadeout_clipping
    }

    pub fn auto_clip(&self) -> (r: bool)
        ensures
            r == self.auto_clip,
    {
        self.auto_clip
    }

    pub fn scroll_offset(&self) -> (r: i64)
        ensures
            r == self.scroll_offset,
    {
        self.scroll_offset
    }

    pub fn can_hide(&self) -> (r: bool)
        ensures
            r == self.can_hide,
    {
        self.can_hide
    }

    /// The text.
    pub fn text(&self) -> (r: &str)
        ensures
            r@ == self.text@,
    {
        self.text.as_str()
    }

    /// The current selection.
    pub fn selection(&self) -> (r: &Selection)
        ensures
            *r == self.selection.selection,
    {
        &self.selection.selection
    }

    /// Position of the top-left corner.
    pub fn pos(&self) -> (r: (i64, i64))
        ensures
            r == (self.left, self.top),
    {
        (self.left, self.top)
    }

    pub fn hidden(&self) -> (r: bool)
        ensures
            r == self.hidden,
    {
        self.hidden
    }

    pub fn depth(&self) -> (r: i64)
        ensures
            r == self.depth,
    {
        self.depth
    }
}

/// Whether `i` is a character boundary of `s`.
pub fn is_boundary(s: &String, i: usize) -> (r: bool)
    ensures
        r == boundary(s@, i as int),
{
    let n = byte_len(s);
    if i > n {
        return false;
    }
    s.as_str().is_char_boundary(i)
}

} // verus!
