//! Window events as plain values, and what the layout engine answers about
//! the focused widget for one event.
use crate::edit::Cluster;
use crate::selection::Selection;
use std::ops::Range;
use vstd::prelude::*;

verus! {

/// Modifier state: Shift, and the action modifier (Super on macOS, Control
/// elsewhere).
#[derive(Clone, Copy, Debug, PartialEq, Eq, Structural)]
pub struct Modifiers {
    pub shift: bool,
    pub action: bool,
}

/// Named keys the widgets react to.
#[derive(Clone, Copy, Debug, PartialEq, Eq, Structural)]
pub enum NamedKey {
    ArrowLeft,
    ArrowRight,
    ArrowUp,
    ArrowDown,
    Home,
    End,
    Delete,
    Backspace,
    Enter,
    Space,
    Other,
}

/// A key, as the keyboard layout maps it.
#[derive(Debug)]
pub enum Key {
    Named(NamedKey),
    Character(String),
    Unidentified,
}

/// A key press or release.
#[derive(Debug)]
pub struct KeyEvent {
    pub logical_key: Key,
    pub key_without_modifiers: Key,
    pub pressed: bool,
}

/// IME events.
#[derive(Debug)]
pub enum Ime {
    Enabled,
    Disabled,
    Commit(String),
    Preedit(String, Option<(usize, usize)>),
}

/// Phase of a touch.
#[derive(Clone, Copy, Debug, PartialEq, Eq, Structural)]
pub enum TouchPhase {
    Started,
    Moved,
    Ended,
    Cancelled,
}

/// Horizontal wheel movement.
#[derive(Clone, Copy, Debug, PartialEq, Eq, Structural)]
pub enum ScrollDelta {
    /// In lines.
    Line(i64),
    /// In pixels.
    Pixel(i64),
}

/// A window event.
#[derive(Debug)]
pub enum WindowEvent {
    MouseInput { pressed: bool, left: bool },
    CursorMoved { x: i64, y: i64 },
    MouseWheel(ScrollDelta),
    KeyboardInput(KeyEvent),
    ModifiersChanged(Modifiers),
    Ime(Ime),
    Touch { phase: TouchPhase, x: i64, y: i64 },
    Resized,
    Other,
}

/// A caret movement and the matching selection extension.
#[derive(Clone, Copy, Debug, PartialEq, Eq, Structural)]
pub struct Motion {
    /// The collapsed selection after moving the caret.
    pub moved: Selection,
    /// The selection after moving its focus only.
    pub extended: Selection,
}

/// Selections the layout engine computes at the pointer position.
#[derive(Clone, Copy, Debug, PartialEq, Eq, Structural)]
pub struct PointSelections {
    /// Caret nearest the point.
    pub caret: Selection,
    /// Word under the point.
    pub word: Selection,
    /// Line under the point.
    pub line: Selection,
    /// Current selection extended to the point.
    pub extended: Selection,
    /// Saved shift-click anchor (or the selection) extended to the point.
    pub extended_from_anchor: Selection,
}

/// What the layout engine answers about the focused widget, for its current
/// text and selection.
#[derive(Debug)]
pub struct Navigation {
    pub left: Motion,
    pub right: Motion,
    pub word_left: Motion,
    pub word_right: Motion,
    pub up: Motion,
    pub down: Motion,
    pub line_start: Motion,
    pub line_end: Motion,
    pub text_start: Motion,
    pub text_end: Motion,
    /// Selection of the whole text.
    pub all: Selection,
    /// At the pointer (mouse or touch), if the event has a position.
    pub point: Option<PointSelections>,
    /// The cluster after the caret.
    pub downstream: Option<Range<usize>>,
    /// The cluster before the caret.
    pub upstream: Option<Cluster>,
    /// Next word boundary after the caret.
    pub next_word: usize,
    /// Previous word boundary before the caret.
    pub prev_word: usize,
}

/// Input state the dispatcher tracks.
#[derive(Clone, Copy, Debug)]
pub struct TextInputState {
    pub modifiers: Modifiers,
    pub cursor_pos: (i64, i64),
    pub pointer_down: bool,
    /// Consecutive left presses, modulo 4.
    pub click_count: u32,
}

impl TextInputState {
    /// No modifiers, pointer up at the origin, no clicks.
    pub fn new() -> (r: TextInputState)
        ensures
            r == (TextInputState {
                modifiers: Modifiers { shift: false, action: false },
                cursor_pos: (0, 0),
                pointer_down: false,
                click_count: 0,
            }),
    {
        TextInputState {
            modifiers: Modifiers { shift: false, action: false },
            cursor_pos: (0, 0),
            pointer_down: false,
            click_count: 0,
        }
    }

    /// Track modifiers, the pointer position and the pointer button.
    pub fn handle_event(&mut self, event: &WindowEvent)
        ensures
            *final(self) == (match event {
                WindowEvent::ModifiersChanged(m) => TextInputState { modifiers: *m, ..*old(self) },
                WindowEvent::CursorMoved { x, y } => TextInputState {
                    cursor_pos: (*x, *y),
                    ..*old(self)
                },
                WindowEvent::MouseInput { pressed, left } => TextInputState {
                    pointer_down: *pressed,
                    ..*old(self)
                },
                _ => *old(self),
            }),
    {
        match event {
            WindowEvent::ModifiersChanged(m) => {
                self.modifiers = *m;
            },
            WindowEvent::CursorMoved { x, y } => {
                self.cursor_pos = (*x, *y);
            },
            WindowEvent::MouseInput { pressed, left } => {
                self.pointer_down = *pressed;
            },
            _ => {},
        }
    }
}

} // verus!
