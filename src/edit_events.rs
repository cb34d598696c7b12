//! Event handling of the editable widget: keys, IME, touch and wheel, then
//! placeholder restoration and decoration bookkeeping.
use crate::buffer::{blen, bytes, no_newlines, splice};
use crate::edit::{
    backdelete_post, backdelete_word_post, base_sel, base_text, caret_after, clear_compose_post,
    clear_placeholder_post, followed,
    compose_target, compose_post, delete_frame, delete_post, delete_word_post, deleted_selection,
    did_replace, edit_ok, edited, ime_selection, insert_post, redo_post, restore_post, undo_post,
    TextEdit, TextEventResult,
};
use crate::history::rng;
use crate::events::{
    Ime, Key, KeyEvent, Modifiers, NamedKey, Navigation, ScrollDelta, TextInputState, TouchPhase,
    WindowEvent,
};
use crate::selection::Selection;
use crate::text_box::{char_key, copies, is_char_key, sel_after, TextBox};
use vstd::prelude::*;

verus! {

/// Pixels scrolled per wheel line.
pub const LINE_SCROLL_PX: i64 = 30;

/// Padding kept between the caret and the edges of a scrolled single-line edit.
pub const SCROLL_PADDING: i64 = 10;

/// Whether the modifiers enter a newline in `mode`.
pub open spec fn newline_allowed(mode: crate::edit::NewlineMode, m: Modifiers) -> bool {
    match mode {
        crate::edit::NewlineMode::Enter => !m.action && !m.shift,
        crate::edit::NewlineMode::ShiftEnter => m.shift && !m.action,
        crate::edit::NewlineMode::CtrlEnter => m.action && !m.shift,
        crate::edit::NewlineMode::Never => false,
    }
}

/// The text a key press types, if any: a newline for an allowed Enter, a
/// space, or the key's characters, none of them with the action modifier
/// (but for a Ctrl+Enter newline).
pub open spec fn typed_text(k: Key, m: Modifiers, single_line: bool, mode: crate::edit::NewlineMode) -> Option<Seq<char>> {
    match k {
        Key::Named(NamedKey::Enter) => if newline_allowed(mode, m) && !single_line {
            Some(seq!['\n'])
        } else {
            None
        },
        Key::Named(NamedKey::Space) => if !m.action {
            Some(seq![' '])
        } else {
            None
        },
        Key::Character(s) => if !m.action {
            Some(s@)
        } else {
            None
        },
        _ => None,
    }
}

/// Whether the newline mode lets these modifiers enter a newline.
pub fn newline_mode_matches(mode: crate::edit::NewlineMode, m: Modifiers) -> (r: bool)
    ensures
        r == newline_allowed(mode, m),
{
    match mode {
        crate::edit::NewlineMode::Enter => !m.action && !m.shift,
        crate::edit::NewlineMode::ShiftEnter => m.shift && !m.action,
        crate::edit::NewlineMode::CtrlEnter => m.action && !m.shift,
        crate::edit::NewlineMode::Never => false,
    }
}

/// Whether a change of selection or caret visibility needs the decorations
/// redrawn. For a display-only widget a caret that moves is invisible.
pub open spec fn decorations_differ(a: Selection, b: Selection, sa: bool, sb: bool, editable: bool) -> bool {
    if sa != sb {
        true
    } else if !editable && a.anchor.index == a.focus.index && b.anchor.index == b.focus.index {
        false
    } else {
        a.start() != b.start() || a.end() != b.end()
    }
}

/// Whether the decorations must be redrawn after the selection went from
/// `initial` to `new` and caret visibility from `initial_show` to `new_show`.
pub fn selection_decorations_changed(
    initial: Selection,
    new: Selection,
    initial_show: bool,
    new_show: bool,
    editable: bool,
) -> (r: bool)
    ensures
        r == decorations_differ(initial, new, initial_show, new_show, editable),
{
    if initial_show != new_show {
        return true;
    }
    if !editable && initial.is_collapsed() && new.is_collapsed() {
        return false;
    }
    let a = initial.text_range();
    let b = new.text_range();
    a.start != b.start || a.end != b.end
}

/// `x` clamped to the `i64` range.
pub open spec fn clamp64(x: int) -> i64 {
    if x > i64::MAX {
        i64::MAX
    } else if x < i64::MIN {
        i64::MIN
    } else {
        x as i64
    }
}

fn clamp_i128(x: i128) -> (r: i64)
    ensures
        r == clamp64(x as int),
{
    if x > i64::MAX as i128 {
        i64::MAX
    } else if x < i64::MIN as i128 {
        i64::MIN
    } else {
        x as i64
    }
}

/// The scroll offset that keeps a caret at `cx` visible in a view of width
/// `w` over text of width `total`, from offset `cur`.
pub open spec fn scroll_for_caret(cx: int, cur: int, w: int, total: int) -> int {
    let p = SCROLL_PADDING as int;
    let n = if cx >= total - 2 && total > w {
        total - w + p
    } else if cx < cur + p {
        if cx - p > 0 {
            cx - p
        } else {
            0
        }
    } else if cx > cur + w - p {
        cx - w + p
    } else {
        cur
    };
    if total <= w {
        0
    } else if n < 0 {
        0
    } else {
        n
    }
}

/// The offset after a wheel movement of `amount` pixels, within
/// `0..=max(total - w, 0)`.
pub open spec fn scroll_for_wheel(cur: int, amount: int, w: int, total: int) -> int {
    let max = if total - w > 0 {
        total - w
    } else {
        0
    };
    let n = cur - amount;
    if n < 0 {
        0
    } else if n > max {
        max
    } else {
        n
    }
}

/// `n` is `o` with the caret moved to `target` and the view following it.
pub open spec fn moved_to(o: TextEdit, n: TextEdit, target: Selection) -> bool {
    n == TextEdit {
        text_box: crate::text_box::TextBox {
            selection: crate::text_box::SelectionState {
                selection: target,
                prev_anchor: None,
                ..o.text_box.selection
            },
            ..o.text_box
        },
        should_follow_cursor: true,
        ..o
    }
}

/// Whether a key press is an edit command: `x` or `v` with the action
/// modifier and without Shift, or `z` with the action modifier.
pub open spec fn is_command(k: KeyEvent, m: Modifiers) -> bool {
    let kw = k.key_without_modifiers;
    m.action && ((!m.shift && (is_char_key(kw, 120u8) || is_char_key(kw, 118u8))) || is_char_key(kw, 122u8))
}

/// The effect of an edit command.
pub open spec fn command_post(
    o: TextEdit,
    n: TextEdit,
    k: KeyEvent,
    m: Modifiers,
    clipboard: Option<String>,
    c0: Option<String>,
    c1: Option<String>,
    r: TextEventResult,
) -> bool {
    let kw = k.key_without_modifiers;
    if !m.shift && is_char_key(kw, 120u8) {
        if o.text_box.has_selected_text() {
            &&& c1 is Some
            &&& bytes(c1->0@) == bytes(o.text_box.text@).subrange(o.sel().start(), o.sel().end())
            &&& deleted_selection(o, n)
            &&& delete_frame(o, n)
            &&& r.text_changed
        } else {
            n == o && c1 == c0 && !r.text_changed
        }
    } else if !m.shift && is_char_key(kw, 118u8) {
        &&& insert_post(o, n, match clipboard {
            Some(t) => t@,
            None => Seq::empty(),
        })
        &&& c1 == c0
        &&& r.text_changed
    } else {
        &&& (if m.shift { redo_post(o, n) } else { undo_post(o, n) })
        &&& c1 == c0
        &&& r.text_changed
    }
}

/// The effect of a key press that is no edit command.
pub open spec fn named_key_post(o: TextEdit, n: TextEdit, k: KeyEvent, m: Modifiers, nav: Navigation, r: TextEventResult) -> bool {
    let moves = !m.shift && !o.showing_placeholder;
    let unchanged = n == o && !r.text_changed;
    match k.logical_key {
        Key::Named(NamedKey::ArrowLeft) => if moves {
            moved_to(o, n, if m.action { nav.word_left.moved } else { nav.left.moved }) && !r.text_changed
        } else {
            unchanged
        },
        Key::Named(NamedKey::ArrowRight) => if moves {
            moved_to(o, n, if m.action { nav.word_right.moved } else { nav.right.moved }) && !r.text_changed
        } else {
            unchanged
        },
        Key::Named(NamedKey::ArrowUp) => if moves {
            moved_to(o, n, if o.single_line { nav.text_start.moved } else { nav.up.moved }) && !r.text_changed
        } else {
            unchanged
        },
        Key::Named(NamedKey::ArrowDown) => if moves {
            moved_to(o, n, if o.single_line { nav.text_end.moved } else { nav.down.moved }) && !r.text_changed
        } else {
            unchanged
        },
        Key::Named(NamedKey::Home) => if moves {
            moved_to(o, n, if m.action { nav.text_start.moved } else { nav.line_start.moved }) && !r.text_changed
        } else {
            unchanged
        },
        Key::Named(NamedKey::End) => if moves {
            moved_to(o, n, if m.action { nav.text_end.moved } else { nav.line_end.moved }) && !r.text_changed
        } else {
            unchanged
        },
        Key::Named(NamedKey::Delete) => if !o.showing_placeholder {
            r.text_changed && if m.action {
                delete_word_post(o, n, nav.next_word)
            } else {
                delete_post(o, n, nav.downstream)
            }
        } else {
            unchanged
        },
        Key::Named(NamedKey::Backspace) => r.text_changed && if m.action {
            backdelete_word_post(o, n, nav.prev_word)
        } else {
            backdelete_post(o, n, nav.upstream)
        },
        Key::Named(NamedKey::Enter) => if newline_allowed(o.newline_mode, m) && !o.single_line {
            insert_post(o, n, seq!['\n']) && r.text_changed
        } else {
            unchanged
        },
        Key::Named(NamedKey::Space) => if !m.action {
            insert_post(o, n, seq![' ']) && r.text_changed
        } else {
            unchanged
        },
        Key::Character(s) => if !m.action {
            insert_post(o, n, s@) && r.text_changed
        } else {
            unchanged
        },
        _ => unchanged,
    }
}

/// The effect of a key press while not composing.
pub open spec fn key_post(
    o: TextEdit,
    n: TextEdit,
    k: KeyEvent,
    m: Modifiers,
    nav: Navigation,
    clipboard: Option<String>,
    c0: Option<String>,
    c1: Option<String>,
    r: TextEventResult,
) -> bool {
    &&& !r.decorations_changed
    &&& if is_command(k, m) {
        command_post(o, n, k, m, clipboard, c0, c1, r)
    } else {
        named_key_post(o, n, k, m, nav, r) && c1 == c0
    }
}

/// The effect of a wheel movement over a single-line widget.
pub open spec fn wheel_post(o: TextEdit, n: TextEdit, delta: ScrollDelta, changed: bool) -> bool {
    ({
                let amount: int = match delta {
                    ScrollDelta::Line(x) => x * LINE_SCROLL_PX,
                    ScrollDelta::Pixel(x) => x as int,
                };
                let v = clamp64(
                    scroll_for_wheel(
                        o.text_box.scroll_offset as int,
                        amount,
                        o.text_box.max_advance as int,
                        o.text_box.full_width as int,
                    ),
                );
                &&& changed == (amount != 0 && v != o.text_box.scroll_offset)
                &&& n == (TextEdit {
                    text_box: crate::text_box::TextBox {
                        scroll_offset: if changed {
                            v
                        } else {
                            o.text_box.scroll_offset
                        },
                        ..o.text_box
                    },
                    ..o
                })
            })
}

/// The effect of an IME event.
pub open spec fn ime_post(o: TextEdit, n: TextEdit, ime: Ime, r: TextEventResult) -> bool {
    &&& !r.decorations_changed
    &&& match ime {
        Ime::Enabled => n == o && !r.text_changed,
        Ime::Disabled => clear_compose_post(o, n) && r.text_changed,
        Ime::Commit(t) => r.text_changed && exists|m1: TextEdit, m2: TextEdit|
            #[trigger] clear_placeholder_post(o, m1) && #[trigger] clear_compose_post(followed(m1), m2) && insert_post(m2, n, t@),
        Ime::Preedit(t, c) => r.text_changed && exists|m1: TextEdit| #[trigger] clear_placeholder_post(o, m1) && if t@.len() == 0 {
            clear_compose_post(followed(m1), n)
        } else {
            compose_post(followed(m1), n, t@, c)
        },
    }
}

/// The effect of a touch.
pub open spec fn touch_post(o: TextEdit, n: TextEdit, phase: TouchPhase, nav: Navigation) -> bool {
    match phase {
        TouchPhase::Started => match nav.point {
            Some(p) => moved_to(o, n, p.caret),
            None => n == followed(o),
        },
        TouchPhase::Moved => match nav.point {
            Some(p) => moved_to(o, n, p.extended),
            None => n == followed(o),
        },
        TouchPhase::Cancelled => moved_to(o, n, Selection::caret(o.sel().focus)),
        TouchPhase::Ended => n == o,
    }
}

/// No change reported.
pub open spec fn nothing() -> TextEventResult {
    TextEventResult { text_changed: false, decorations_changed: false }
}

/// The selection phase of an event: unless the placeholder is shown, the
/// selection handling of the text box runs, against the full rectangle,
/// and what it copies replaces `c0`.
pub open spec fn selection_phase(
    o: TextEdit,
    m: TextEdit,
    event: WindowEvent,
    input: TextInputState,
    nav: Navigation,
    c0: Option<String>,
    cm: Option<String>,
) -> bool {
    if o.showing_placeholder {
        m == o && cm == c0
    } else {
        &&& m == TextEdit {
            text_box: TextBox {
                selection: sel_after(
                    o.text_box.selection,
                    event,
                    input,
                    nav,
                    o.text_box.in_full_rect(input.cursor_pos),
                ),
                ..o.text_box
            },
            ..o
        }
        &&& copies(o.text_box, event, input) ==> cm is Some && bytes(cm->0@) == bytes(
            o.text_box.text@,
        ).subrange(o.sel().start(), o.sel().end())
        &&& !copies(o.text_box, event, input) ==> cm == c0
    }
}

/// The routing phase of an event, by kind. `r.1` tells that a key release
/// ended the handling early.
pub open spec fn kind_phase(
    m: TextEdit,
    n: TextEdit,
    event: WindowEvent,
    input: TextInputState,
    nav: Navigation,
    clipboard: Option<String>,
    cm: Option<String>,
    c1: Option<String>,
    r: (TextEventResult, bool),
) -> bool {
    match event {
        WindowEvent::KeyboardInput(k) => if m.compose is None {
            if !k.pressed {
                n == m && c1 == cm && r.1 && r.0 == nothing()
            } else {
                key_post(m, n, k, input.modifiers, nav, clipboard, cm, c1, r.0) && !r.1
            }
        } else {
            n == m && c1 == cm && !r.1 && r.0 == nothing()
        },
        WindowEvent::Touch { phase, .. } => c1 == cm && !r.1 && r.0 == nothing() && if m.compose is None
            && !m.showing_placeholder {
            touch_post(m, n, phase, nav)
        } else {
            n == m
        },
        WindowEvent::Ime(ime) => c1 == cm && !r.1 && ime_post(m, n, ime, r.0),
        WindowEvent::MouseWheel(d) => c1 == cm && !r.1 && !r.0.decorations_changed && if m.single_line
            && m.text_box.in_full_rect(input.cursor_pos) {
            wheel_post(m, n, d, r.0.text_changed)
        } else {
            n == m && !r.0.text_changed
        },
        _ => n == m && c1 == cm && !r.1 && r.0 == nothing(),
    }
}

/// The effect of an event on an editable widget that is neither disabled
/// nor hidden: the selection phase, then routing by kind (`routed`); unless
/// a key release ended it there, the placeholder comes back if the text is
/// empty, a text change asks the view to follow the caret, and decorations
/// are flagged when the selection or caret visibility changed.
pub open spec fn event_post(
    o: TextEdit,
    n: TextEdit,
    event: WindowEvent,
    input: TextInputState,
    nav: Navigation,
    clipboard: Option<String>,
    c0: Option<String>,
    c1: Option<String>,
    r: TextEventResult,
) -> bool {
    exists|routed: TextEdit, rr: (TextEventResult, bool)|
        #[trigger] routes(o, routed, event, input, nav, clipboard, c0, c1, rr) && if rr.1 {
            n == routed && r == rr.0
        } else {
            &&& r.text_changed == rr.0.text_changed
            &&& r.decorations_changed == decorations_differ(o.sel(), n.sel(), o.show_cursor, n.show_cursor, true)
            &&& exists|restored: TextEdit| #[trigger] restore_post(routed, restored) && n == TextEdit {
                should_follow_cursor: restored.should_follow_cursor || rr.0.text_changed,
                ..restored
            }
        }
}

/// The selection phase followed by routing by kind.
pub open spec fn routes(
    o: TextEdit,
    n: TextEdit,
    event: WindowEvent,
    input: TextInputState,
    nav: Navigation,
    clipboard: Option<String>,
    c0: Option<String>,
    c1: Option<String>,
    r: (TextEventResult, bool),
) -> bool {
    exists|m: TextEdit, cm: Option<String>|
        #[trigger] selection_phase(o, m, event, input, nav, c0, cm)
        && kind_phase(m, n, event, input, nav, clipboard, cm, c1, r)
}

/// The effect of keeping the caret in view.
pub open spec fn scroll_post(o: TextEdit, n: TextEdit, caret_x: Option<i64>, changed: bool) -> bool {
    &&& !o.single_line || !o.show_cursor || caret_x is None ==> n == o && !changed
    &&& o.single_line && o.show_cursor && caret_x is Some ==> {
        let v = clamp64(
            scroll_for_caret(
                caret_x->0 as int,
                o.text_box.scroll_offset as int,
                o.text_box.max_advance as int,
                o.text_box.full_width as int,
            ),
        );
        &&& changed == (v != o.text_box.scroll_offset)
        &&& n.text_box.scroll_offset == v
        &&& n == (TextEdit {
            text_box: crate::text_box::TextBox { scroll_offset: v, ..o.text_box },
            ..o
        })
    }
}

/// The effect of [`TextEdit::handle_event`]: nothing for a disabled or
/// hidden widget, else [`event_post`].
pub open spec fn edit_event_post(
    o: TextEdit,
    n: TextEdit,
    event: WindowEvent,
    input: TextInputState,
    nav: Navigation,
    clipboard: Option<String>,
    c0: Option<String>,
    c1: Option<String>,
    r: TextEventResult,
) -> bool {
    if o.disabled || o.text_box.hidden {
        n == o && r == nothing() && c1 == c0
    } else {
        event_post(o, n, event, input, nav, clipboard, c0, c1, r)
    }
}

/// The effect of [`TextEdit::update_scroll_after_layout`]: if the view was
/// asked to follow the caret, the request is dropped and the caret kept in
/// view; otherwise nothing.
pub open spec fn follow_post(o: TextEdit, n: TextEdit, caret_x: Option<i64>, changed: bool) -> bool {
    &&& !o.should_follow_cursor ==> n == o && !changed
    &&& o.should_follow_cursor ==> scroll_post(TextEdit { should_follow_cursor: false, ..o }, n, caret_x, changed)
}

/// A commit while composing replaces the preedit text by the committed text
/// and puts the caret after it.
pub proof fn lemma_commit_replaces_preedit(o: TextEdit, n: TextEdit, t: String, r: TextEventResult)
    requires
        ime_post(o, n, Ime::Commit(t), r),
        !o.showing_placeholder,
        o.compose is Some,
        crate::edit::cuts_text(o.text_box.text@, o.compose->0),
        o.compose->0.start + blen(t@) <= usize::MAX,
    ensures
        ({
            let c = o.compose->0;
            &&& n.text_bytes() == edited(o.text_box.text@, c.start as int, c.end as int, t@, o.single_line)
            &&& n.sel() == caret_after(c.start as int, t@)
            &&& n.compose is None
        }),
{
    let c = o.compose->0;
    let st = c.start as int;
    let en = c.end as int;
    let (m1, m2) = choose|m1: TextEdit, m2: TextEdit|
        clear_placeholder_post(o, m1) && clear_compose_post(followed(m1), m2) && insert_post(m2, n, t@);
    assert(m1 == o);
    assert(bytes(Seq::<char>::empty()) =~= Seq::<u8>::empty()) by {
        crate::buffer::lemma_empty_bytes();
    }
    crate::buffer::lemma_splice(o.text_box.text@, st, en, Seq::empty(), m2.text_box.text@);
    assert(blen(m2.text_box.text@) >= st);
    assert(m2.sel().start() == st && m2.sel().end() == st);
    assert(base_sel(m2) == m2.sel());
    assert(edit_ok(m2.text_box.text@, st, st, t@));
    assert(splice(bytes(m2.text_box.text@), st, st, bytes(t@)) =~= splice(
        bytes(o.text_box.text@),
        st,
        en,
        bytes(t@),
    ));
}

impl TextEdit {
    /// Keep the caret in view in single-line mode. `caret_x` is the caret's
    /// position in the layout, if it is shown. Returns whether the offset
    /// changed.
    pub fn update_scroll_to_cursor(&mut self, caret_x: Option<i64>) -> (changed: bool)
        ensures
            scroll_post(*old(self), *final(self), caret_x, changed),
    {
        if !self.single_line || !self.show_cursor {
            return false;
        }
        match caret_x {
            None => false,
            Some(cx) => {
                let cx = cx as i128;
                let w = self.text_box.max_advance as i128;
                let cur = self.text_box.scroll_offset as i128;
                let total = self.text_box.full_width as i128;
                let p = SCROLL_PADDING as i128;
                let mut n = if cx >= total - 2 && total > w {
                    total - w + p
                } else if cx < cur + p {
                    if cx - p > 0 {
                        cx - p
                    } else {
                        0
                    }
                } else if cx > cur + w - p {
                    cx - w + p
                } else {
                    cur
                };
                if total <= w {
                    n = 0;
                } else if n < 0 {
                    n = 0;
                }
                let n = clamp_i128(n);
                if n != self.text_box.scroll_offset {
                    self.text_box.scroll_offset = n;
                    true
                } else {
                    false
                }
            },
        }
    }

    /// After a layout refresh: follow the caret if asked to, once.
    pub fn update_scroll_after_layout(&mut self, caret_x: Option<i64>) -> (changed: bool)
        ensures
            follow_post(*old(self), *final(self), caret_x, changed),
    {
        if self.should_follow_cursor {
            self.should_follow_cursor = false;
            self.update_scroll_to_cursor(caret_x)
        } else {
            false
        }
    }

    /// An IME event. `Disabled` ends composing; `Commit` inserts its text
    /// (ending any composition first); `Preedit` sets the composition, or
    /// ends it when its text is empty. The placeholder is cleared first for
    /// `Commit` and `Preedit`.
    pub fn handle_ime(&mut self, ime: &Ime) -> (r: TextEventResult)
        requires
            old(self).wf(),
        ensures
            final(self).wf(),
            final(self).single_line == old(self).single_line,
            ime_post(*old(self), *final(self), *ime, r),
    {
        let mut result = TextEventResult::new();
        match ime {
            Ime::Enabled => {},
            Ime::Disabled => {
                self.clear_compose();
                result.text_changed = true;
            },
            Ime::Commit(t) => {
                self.clear_placeholder();
                let ghost m1 = *self;
                self.should_follow_cursor = true;
                proof {
                    assert(*self == followed(m1));
                }
                self.clear_compose();
                let ghost m2 = *self;
                self.insert_or_replace_selection(t.as_str());
                result.text_changed = true;
                proof {
                    assert(clear_placeholder_post(*old(self), m1) && clear_compose_post(followed(m1), m2)
                        && insert_post(m2, *self, t@));
                }
            },
            Ime::Preedit(t, c) => {
                self.clear_placeholder();
                let ghost m1 = *self;
                self.should_follow_cursor = true;
                proof {
                    assert(*self == followed(m1));
                }
                if t.as_str().is_empty() {
                    self.clear_compose();
                } else {
                    self.set_compose(t.as_str(), *c);
                }
                result.text_changed = true;
                proof {
                    assert(clear_placeholder_post(*old(self), m1));
                }
            },
        }
        result
    }

    /// A touch while not composing and not showing the placeholder: a start
    /// puts the caret at the point, a move extends the selection to it, a
    /// cancel collapses the selection.
    pub fn handle_touch(&mut self, phase: TouchPhase, nav: &Navigation)
        requires
            old(self).wf(),
        ensures
            final(self).wf(),
            touch_post(*old(self), *final(self), phase, *nav),
    {
        match phase {
            TouchPhase::Started => {
                match &nav.point {
                    Some(p) => self.move_caret(p.caret),
                    None => self.should_follow_cursor = true,
                }
            },
            TouchPhase::Cancelled => {
                let c = self.text_box.selection.selection.collapse();
                self.move_caret(c);
            },
            TouchPhase::Moved => {
                match &nav.point {
                    Some(p) => self.move_caret(p.extended),
                    None => self.should_follow_cursor = true,
                }
            },
            TouchPhase::Ended => {},
        }
    }

    /// A wheel movement over a single-line widget scrolls it horizontally
    /// (a line is [`LINE_SCROLL_PX`] pixels), within the text's width.
    /// Returns whether the offset changed.
    pub fn handle_wheel(&mut self, delta: ScrollDelta) -> (changed: bool)
        ensures
            wheel_post(*old(self), *final(self), delta, changed),
    {
        let amount: i128 = match delta {
            ScrollDelta::Line(x) => x as i128 * LINE_SCROLL_PX as i128,
            ScrollDelta::Pixel(x) => x as i128,
        };
        if amount == 0 {
            return false;
        }
        let cur = self.text_box.scroll_offset as i128;
        let span = self.text_box.full_width as i128 - self.text_box.max_advance as i128;
        let max = if span > 0 {
            span
        } else {
            0
        };
        let n = cur - amount;
        let n = if n < 0 {
            0
        } else if n > max {
            max
        } else {
            n
        };
        let n = clamp_i128(n);
        if n != self.text_box.scroll_offset {
            self.text_box.scroll_offset = n;
            true
        } else {
            false
        }
    }

    /// Selection handling, then routing by event kind. The flag tells that
    /// a key release ended the handling early.
    fn route_event(
        &mut self,
        event: &WindowEvent,
        input: &TextInputState,
        nav: &Navigation,
        clipboard: &Option<String>,
        copied: &mut Option<String>,
    ) -> (r: (TextEventResult, bool))
        requires
            old(self).wf(),
        ensures
            final(self).wf(),
            final(self).single_line == old(self).single_line,
            routes(*old(self), *final(self), *event, *input, *nav, *clipboard, *old(copied), *final(copied), r),
    {
        let mut result = TextEventResult::new();
        if !self.showing_placeholder {
            let inside = self.text_box.hit_full_rect(input.cursor_pos);
            let c = self.text_box.handle_selection_event(event, input, nav, inside);
            if c.is_some() {
                *copied = c;
            }
        }
        let ghost m = *self;
        let ghost cm = *copied;
        proof {
            assert(selection_phase(*old(self), m, *event, *input, *nav, *old(copied), cm));
        }
        self.route_kind(event, input, nav, clipboard, copied)
    }

    /// Routing by event kind, after the selection phase.
    fn route_kind(
        &mut self,
        event: &WindowEvent,
        input: &TextInputState,
        nav: &Navigation,
        clipboard: &Option<String>,
        copied: &mut Option<String>,
    ) -> (r: (TextEventResult, bool))
        requires
            old(self).wf(),
        ensures
            final(self).wf(),
            final(self).single_line == old(self).single_line,
            kind_phase(*old(self), *final(self), *event, *input, *nav, *clipboard, *old(copied), *final(copied), r),
    {
        let mut result = TextEventResult::new();
        match event {
            WindowEvent::KeyboardInput(k) => {
                if self.compose.is_none() {
                    if !k.pressed {
                        return (result, true);
                    }
                    result = self.handle_key(k, input.modifiers, nav, clipboard, copied);
                }
            },
            WindowEvent::Touch { phase, .. } => {
                if self.compose.is_none() && !self.showing_placeholder {
                    self.handle_touch(*phase, nav);
                }
            },
            WindowEvent::Ime(ime) => {
                result = self.handle_ime(ime);
            },
            WindowEvent::MouseWheel(delta) => {
                if self.single_line && self.text_box.hit_full_rect(input.cursor_pos) {
                    if self.handle_wheel(*delta) {
                        result.text_changed = true;
                    }
                }
            },
            _ => {},
        }
        (result, false)
    }

    /// Handle one window event. A disabled or hidden widget ignores it.
    /// Selection handling runs first unless the placeholder is shown; then
    /// the event is routed by kind. Afterwards the placeholder is restored if
    /// the text became empty, decorations are flagged when the selection or
    /// caret visibility changed, and a text change asks the view to follow
    /// the caret. Copied or cut text is put in `copied`.
    pub fn handle_event(
        &mut self,
        event: &WindowEvent,
        input: &TextInputState,
        nav: &Navigation,
        clipboard: &Option<String>,
        copied: &mut Option<String>,
    ) -> (r: TextEventResult)
        requires
            old(self).wf(),
        ensures
            final(self).wf(),
            final(self).single_line == old(self).single_line,
            edit_event_post(*old(self), *final(self), *event, *input, *nav, *clipboard, *old(copied), *final(copied), r),
    {
        if self.disabled || self.text_box.hidden {
            return TextEventResult::new();
        }
        let initial_selection = self.text_box.selection.selection;
        let initial_show_cursor = self.show_cursor;
        let (mut result, early) = self.route_event(event, input, nav, clipboard, copied);
        let ghost routed = *self;
        let ghost rr = (result, early);
        if early {
            return result;
        }
        self.restore_placeholder_if_any();
        let ghost restored = *self;
        if selection_decorations_changed(
            initial_selection,
            self.text_box.selection.selection,
            initial_show_cursor,
            self.show_cursor,
            true,
        ) {
            result.decorations_changed = true;
        }
        if result.text_changed {
            self.should_follow_cursor = true;
        }
        proof {
            assert(restore_post(routed, restored));
            assert(*self == (TextEdit {
                should_follow_cursor: restored.should_follow_cursor || rr.0.text_changed,
                ..restored
            }));
        }
        result
    }

    /// A key press while not composing. The edit commands with the action
    /// modifier come first and alone: `x` cuts (into `copied`), `v` pastes
    /// `clipboard`, `z` undoes and Shift+`z` redoes. Other keys type, delete
    /// or move the caret, as [`key_post`] states.
    pub fn handle_key(
        &mut self,
        k: &KeyEvent,
        mods: Modifiers,
        nav: &Navigation,
        clipboard: &Option<String>,
        copied: &mut Option<String>,
    ) -> (r: TextEventResult)
        requires
            old(self).wf(),
            old(self).compose is None,
            k.pressed,
        ensures
            final(self).wf(),
            final(self).compose is None,
            final(self).single_line == old(self).single_line,
            key_post(*old(self), *final(self), *k, mods, *nav, *clipboard, *old(copied), *final(copied), r),
    {
        let mut result = TextEventResult::new();
        let shift = mods.shift;
        let action = mods.action;
        let kw = &k.key_without_modifiers;
        if action && !shift && char_key(kw, 120u8) {
            if let Some(t) = self.text_box.selected_text() {
                *copied = Some(t.to_owned());
                self.delete_selection();
                result.text_changed = true;
            }
            return result;
        }
        if action && !shift && char_key(kw, 118u8) {
            let text = match clipboard {
                Some(t) => t.as_str(),
                None => {
                    proof {
                        reveal_strlit("");
                        assert(""@ =~= Seq::<char>::empty());
                    }
                    ""
                },
            };
            self.insert_or_replace_selection(text);
            result.text_changed = true;
            return result;
        }
        if action && char_key(kw, 122u8) {
            if shift {
                self.redo();
            } else {
                self.undo();
            }
            result.text_changed = true;
            return result;
        }
        let placeholder = self.showing_placeholder;
        match &k.logical_key {
            Key::Named(NamedKey::ArrowLeft) => {
                if !shift && !placeholder {
                    self.move_caret(if action { nav.word_left.moved } else { nav.left.moved });
                }
            },
            Key::Named(NamedKey::ArrowRight) => {
                if !shift && !placeholder {
                    self.move_caret(if action { nav.word_right.moved } else { nav.right.moved });
                }
            },
            Key::Named(NamedKey::ArrowUp) => {
                if !shift && !placeholder {
                    self.move_caret(if self.single_line { nav.text_start.moved } else { nav.up.moved });
                }
            },
            Key::Named(NamedKey::ArrowDown) => {
                if !shift && !placeholder {
                    self.move_caret(if self.single_line { nav.text_end.moved } else { nav.down.moved });
                }
            },
            Key::Named(NamedKey::Home) => {
                if !shift && !placeholder {
                    self.move_caret(if action { nav.text_start.moved } else { nav.line_start.moved });
                }
            },
            Key::Named(NamedKey::End) => {
                if !shift && !placeholder {
                    self.move_caret(if action { nav.text_end.moved } else { nav.line_end.moved });
                }
            },
            Key::Named(NamedKey::Delete) => {
                if !placeholder {
                    if action {
                        self.delete_word(nav.next_word);
                    } else {
                        self.delete(copy_range(&nav.downstream));
                    }
                    result.text_changed = true;
                }
            },
            Key::Named(NamedKey::Backspace) => {
                if action {
                    self.backdelete_word(nav.prev_word);
                } else {
                    self.backdelete(copy_cluster(&nav.upstream));
                }
                result.text_changed = true;
            },
            Key::Named(NamedKey::Enter) => {
                if newline_mode_matches(self.newline_mode, mods) && !self.single_line {
                    proof {
                        reveal_strlit("\n");
                        assert("\n"@ =~= seq!['\n']);
                    }
                    self.insert_or_replace_selection("\n");
                    result.text_changed = true;
                }
            },
            Key::Named(NamedKey::Space) => {
                if !action {
                    proof {
                        reveal_strlit(" ");
                        assert(" "@ =~= seq![' ']);
                    }
                    self.insert_or_replace_selection(" ");
                    result.text_changed = true;
                }
            },
            Key::Character(s) => {
                if !action {
                    self.insert_or_replace_selection(s.as_str());
                    result.text_changed = true;
                }
            },
            _ => {},
        }
        result
    }

    /// Put the caret where a movement key takes it, and follow it.
    fn move_caret(&mut self, target: Selection)
        ensures
            moved_to(*old(self), *final(self), target),
    {
        self.should_follow_cursor = true;
        self.text_box.selection.set_selection(target);
    }
}

fn copy_range(r: &Option<std::ops::Range<usize>>) -> (c: Option<std::ops::Range<usize>>)
    ensures
        c == *r,
{
    match r {
        Some(x) => Some(x.start..x.end),
        None => None,
    }
}

fn copy_cluster(c: &Option<crate::edit::Cluster>) -> (r: Option<crate::edit::Cluster>)
    ensures
        r == *c,
{
    match c {
        Some(x) => Some(crate::edit::Cluster { range: x.range.start..x.range.end, whole: x.whole }),
        None => None,
    }
}

} // verus!
