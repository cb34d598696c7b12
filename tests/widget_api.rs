use textbox_core::edit::TextEdit;
use textbox_core::events::{
    Key, KeyEvent, Modifiers, Motion, Navigation, PointSelections, TextInputState, WindowEvent,
};
use textbox_core::selection::{Affinity, Cursor, Selection};
use textbox_core::text_box::{StyleHandle, TextBox};

fn caret(i: usize) -> Selection {
    Selection::from_cursor(Cursor::from_byte_index(i, Affinity::Downstream))
}

fn span(a: usize, b: usize) -> Selection {
    Selection::new(Cursor::from_byte_index(a, Affinity::Downstream), Cursor::from_byte_index(b, Affinity::Downstream))
}

fn nav() -> Navigation {
    let m = |i: usize| Motion { moved: caret(i), extended: span(0, i) };
    Navigation {
        left: m(1),
        right: m(2),
        word_left: m(3),
        word_right: m(4),
        up: m(5),
        down: m(6),
        line_start: m(7),
        line_end: m(8),
        text_start: m(0),
        text_end: m(9),
        all: span(0, 9),
        point: Some(PointSelections {
            caret: caret(2),
            word: span(0, 4),
            line: span(0, 9),
            extended: span(1, 3),
            extended_from_anchor: span(1, 5),
        }),
        downstream: None,
        upstream: None,
        next_word: 0,
        prev_word: 0,
    }
}

fn type_chars(e: &mut TextEdit, s: &str) {
    for c in s.chars() {
        e.insert_or_replace_selection(&c.to_string());
    }
}

#[test]
fn punctuation_joins_whitespace_runs() {
    let mut e = TextEdit::new(String::new(), (0, 0), (100, 20), 0);
    type_chars(&mut e, "a !b");
    assert_eq!(e.history.len(), 1);
    let mut e = TextEdit::new(String::new(), (0, 0), (100, 20), 0);
    type_chars(&mut e, "a xb");
    assert_eq!(e.history.len(), 2);
}

#[test]
fn moves_take_layout_answers() {
    let mut e = TextEdit::new("0123456789".to_string(), (0, 0), (100, 20), 0);
    let n = nav();
    e.move_left(&n);
    assert_eq!(e.selection().focus.index, 1);
    e.move_right(&n);
    assert_eq!(e.selection().focus.index, 2);
    e.move_word_left(&n);
    assert_eq!(e.selection().focus.index, 3);
    e.move_word_right(&n);
    assert_eq!(e.selection().focus.index, 4);
    e.move_up(&n);
    assert_eq!(e.selection().focus.index, 5);
    e.move_down(&n);
    assert_eq!(e.selection().focus.index, 6);
    e.move_to_line_start(&n);
    assert_eq!(e.selection().focus.index, 7);
    e.move_to_line_end(&n);
    assert_eq!(e.selection().focus.index, 8);
    e.select_all(&n);
    assert_eq!(e.selection().text_range(), 0..9);
    e.collapse_selection();
    assert!(e.selection().is_collapsed());
    e.move_to_point(n.point.as_ref().unwrap());
    assert_eq!(e.raw_selection().focus.index, 2);
    e.extend_selection_to_point(n.point.as_ref().unwrap());
    assert_eq!(e.selection().text_range(), 1..3);
    e.move_to_text_start();
    assert_eq!(e.selection().focus.index, 0);
}

#[test]
fn shift_keys_extend_selection() {
    let mut e = TextEdit::new("0123456789".to_string(), (0, 0), (100, 20), 0);
    let mut input = TextInputState::new();
    input.modifiers = Modifiers { shift: true, action: false };
    let k = WindowEvent::KeyboardInput(KeyEvent {
        logical_key: Key::Named(textbox_core::events::NamedKey::End),
        key_without_modifiers: Key::Named(textbox_core::events::NamedKey::End),
        pressed: true,
    });
    let mut copied = None;
    e.handle_event(&k, &input, &nav(), &None, &mut copied);
    assert_eq!(e.selection().text_range(), 0..8);
}

#[test]
fn split_string_skips_preedit() {
    let mut e = TextEdit::new("abcd".to_string(), (0, 0), (100, 20), 0);
    e.move_to_byte(2);
    e.set_compose("XY", None);
    let t = e.text();
    assert_eq!(t.first, "ab");
    assert_eq!(t.second, "cd");
    assert_eq!(t.chars(), vec!['a', 'b', 'c', 'd']);
    assert_eq!(t.to_string(), "abcd");
    e.clear_compose();
    let t = e.text();
    assert_eq!(t.to_string(), "abcd");
    assert_eq!(t.second, "");
}

#[test]
fn setters_keep_text() {
    let mut e = TextEdit::new("abc".to_string(), (1, 2), (100, 20), 3);
    assert_eq!(e.pos(), (1, 2));
    assert_eq!(e.depth(), 3);
    assert!(e.auto_clip());
    e.set_pos((5, 6));
    e.set_size((50, 10));
    e.set_depth(7);
    e.set_hidden(true);
    e.set_clip_rect_with_fadeout(Some((0, 0, 10, 10)), true);
    e.set_auto_clip(false);
    e.set_scroll_offset(4);
    e.set_style(&StyleHandle::default_style());
    assert_eq!(e.pos(), (5, 6));
    assert_eq!(e.text_box.max_advance, 50);
    assert_eq!(e.depth(), 7);
    assert!(e.hidden());
    assert_eq!(e.clip_rect(), Some((0, 0, 10, 10)));
    assert!(e.fadeout_clipping());
    assert!(!e.auto_clip());
    assert_eq!(e.scroll_offset(), 4);
    e.set_fadeout_clipping(false);
    e.set_clip_rect(None);
    assert!(!e.fadeout_clipping());
    assert_eq!(e.clip_rect(), None);
    assert_eq!(e.text_box.text(), "abc");
}

#[test]
fn display_box_selects_and_copies() {
    let mut b = TextBox::new("hello world".to_string(), (0, 0), (100, 20), 0);
    b.content_width = 80;
    b.content_height = 20;
    let mut input = TextInputState::new();
    input.cursor_pos = (10, 10);
    input.click_count = 2;
    let press = WindowEvent::MouseInput { pressed: true, left: true };
    let (changed, copied) = b.handle_event(&press, &input, &nav());
    assert!(changed);
    assert!(copied.is_none());
    assert_eq!(b.selection().text_range(), 0..4);
    input.modifiers = Modifiers { shift: false, action: true };
    let copy = WindowEvent::KeyboardInput(KeyEvent {
        logical_key: Key::Character("c".to_string()),
        key_without_modifiers: Key::Character("c".to_string()),
        pressed: true,
    });
    let (_, copied) = b.handle_event(&copy, &input, &nav());
    assert_eq!(copied, Some("hell".to_string()));
    input.cursor_pos = (500, 10);
    input.modifiers = Modifiers { shift: false, action: false };
    b.handle_event(&press, &input, &nav());
    assert!(b.selection().is_collapsed());
    b.set_can_hide(true);
    assert!(b.can_hide());
}

#[test]
fn shift_click_keeps_first_anchor() {
    let mut b = TextBox::new("hello world".to_string(), (0, 0), (100, 20), 0);
    b.content_width = 80;
    b.content_height = 20;
    b.selection.set_selection(caret(1));
    b.selection.extend_selection_with_anchor(span(1, 5));
    assert_eq!(b.selection.shift_click_base(), caret(1));
    b.selection.extend_selection_with_anchor(span(1, 7));
    assert_eq!(b.selection.prev_anchor, Some(caret(1)));
    b.reset_selection();
    assert_eq!(b.selection.prev_anchor, None);
    assert!(b.selection().is_collapsed());
}
