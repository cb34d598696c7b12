use textbox_core::edit::{Cluster, TextEdit};
use textbox_core::events::{
    Ime, Key, KeyEvent, Modifiers, Motion, NamedKey, Navigation, TextInputState, WindowEvent,
};
use textbox_core::selection::{Affinity, Cursor, Selection};

fn caret(i: usize) -> Selection {
    Selection::from_cursor(Cursor::from_byte_index(i, Affinity::Downstream))
}

fn nav_at(i: usize) -> Navigation {
    let m = Motion { moved: caret(i), extended: caret(i) };
    Navigation {
        left: m,
        right: m,
        word_left: m,
        word_right: m,
        up: m,
        down: m,
        line_start: m,
        line_end: m,
        text_start: m,
        text_end: m,
        all: caret(i),
        point: None,
        downstream: None,
        upstream: None,
        next_word: i,
        prev_word: i,
    }
}

fn key(k: Key) -> WindowEvent {
    let kw = match &k {
        Key::Character(s) => Key::Character(s.clone()),
        Key::Named(n) => Key::Named(*n),
        Key::Unidentified => Key::Unidentified,
    };
    WindowEvent::KeyboardInput(KeyEvent { logical_key: k, key_without_modifiers: kw, pressed: true })
}

fn input(shift: bool, action: bool) -> TextInputState {
    let mut s = TextInputState::new();
    s.modifiers = Modifiers { shift, action };
    s
}

fn type_str(e: &mut TextEdit, s: &str) {
    for c in s.chars() {
        let mut copied = None;
        let n = nav_at(0);
        e.handle_event(&key(Key::Character(c.to_string())), &input(false, false), &n, &None, &mut copied);
    }
}

fn edit_with(text: &str) -> TextEdit {
    TextEdit::new(text.to_string(), (0, 0), (200, 30), 0)
}

#[test]
fn insert_coalescing() {
    let mut e = edit_with("");
    type_str(&mut e, "hello");
    assert_eq!(e.text_box.text, "hello");
    assert_eq!(e.history.len(), 1);
    e.undo();
    assert_eq!(e.text_box.text, "");
}

#[test]
fn delete_coalescing() {
    let mut e = edit_with("hello");
    e.move_to_text_end();
    for i in (1..=5).rev() {
        let c = Cluster { range: i - 1..i, whole: false };
        e.backdelete(Some(c));
    }
    assert_eq!(e.text_box.text, "");
    assert_eq!(e.history.len(), 1);
    e.undo();
    assert_eq!(e.text_box.text, "hello");
    assert!(e.text_box.selection.selection.is_collapsed());
    assert_eq!(e.text_box.selection.selection.focus.index, 5);
}

#[test]
fn word_break_ends_coalescing() {
    let mut e = edit_with("");
    type_str(&mut e, "abc def");
    assert_eq!(e.text_box.text, "abc def");
    assert_eq!(e.history.len(), 2);
    e.undo();
    assert_eq!(e.text_box.text, "abc ");
    e.undo();
    assert_eq!(e.text_box.text, "");
}

#[test]
fn ime_round_trip() {
    let mut e = edit_with("ab");
    e.move_to_byte(2);
    e.handle_ime(&Ime::Preedit("漢".to_string(), Some((0, 1))));
    assert_eq!(e.text_box.text, "ab漢");
    assert_eq!(e.compose, Some(2..5));
    assert!(e.show_cursor);
    assert_eq!(e.text_box.selection.selection.anchor.index, 2);
    assert_eq!(e.text_box.selection.selection.focus.index, 3);
    e.handle_ime(&Ime::Commit("漢字".to_string()));
    assert_eq!(e.text_box.text, "ab漢字");
    assert_eq!(e.compose, None);
    assert!(e.text_box.selection.selection.is_collapsed());
    assert_eq!(e.text_box.selection.selection.focus.index, 8);
}

#[test]
fn single_line_paste_strips_newlines() {
    let mut e = edit_with("");
    e.set_single_line(true);
    let mut copied = None;
    let clip = Some("a\nb\r\nc".to_string());
    e.handle_event(&key(Key::Character("v".to_string())), &input(false, true), &nav_at(0), &clip, &mut copied);
    assert_eq!(e.text_box.text, "a b  c");
    assert_eq!(e.text_box.selection.selection.focus.index, 6);
}

#[test]
fn undo_then_redo_is_identity() {
    let mut e = edit_with("");
    type_str(&mut e, "abc");
    let after_edit = e.text_box.selection.selection;
    e.undo();
    assert_eq!(e.text_box.text, "");
    e.redo();
    assert_eq!(e.text_box.text, "abc");
    assert_eq!(e.text_box.selection.selection.focus.index, after_edit.focus.index);
    assert_eq!(e.text_box.selection.selection.focus.affinity, Affinity::Upstream);
}

#[test]
fn replacing_a_selection_starts_an_entry() {
    let mut e = edit_with("");
    type_str(&mut e, "abc");
    assert_eq!(e.history.len(), 1);
    e.text_box.set_selection(Selection::new(
        Cursor::from_byte_index(0, Affinity::Downstream),
        Cursor::from_byte_index(2, Affinity::Downstream),
    ));
    e.insert_or_replace_selection("x");
    assert_eq!(e.text_box.text, "xc");
    assert_eq!(e.history.len(), 2);
    e.undo();
    assert_eq!(e.text_box.text, "abc");
}

#[test]
fn undo_restores_before_a_sequence() {
    let mut e = edit_with("");
    type_str(&mut e, "ab cd");
    e.insert_or_replace_selection("\n");
    while e.history.position() > 0 {
        e.undo();
    }
    assert_eq!(e.text_box.text, "");
    assert_eq!(e.text_box.selection.selection.focus.index, 0);
}

#[test]
fn compose_then_clear_restores_buffer() {
    let mut e = edit_with("hello");
    e.move_to_byte(2);
    e.set_compose("x", Some((1, 1)));
    assert_eq!(e.text_box.text, "hexllo");
    e.set_compose("xyz", None);
    assert_eq!(e.text_box.text, "hexyzllo");
    assert!(!e.show_cursor);
    e.clear_compose();
    assert_eq!(e.text_box.text, "hello");
    assert!(e.show_cursor);
    assert_eq!(e.text_box.selection.selection.focus.index, 2);
}

#[test]
fn single_line_never_holds_newlines() {
    let mut e = edit_with("a\nb");
    e.set_single_line(true);
    assert_eq!(e.text_box.text, "a b");
    e.insert_or_replace_selection("\r\n");
    assert!(!e.text_box.text.contains('\n') && !e.text_box.text.contains('\r'));
    e.set_text("x\ny".to_string(), 0);
    assert_eq!(e.text_box.text, "x y");
}

#[test]
fn enter_follows_newline_mode() {
    let mut e = edit_with("");
    let mut copied = None;
    let enter = key(Key::Named(NamedKey::Enter));
    e.handle_event(&enter, &input(true, false), &nav_at(0), &None, &mut copied);
    assert_eq!(e.text_box.text, "");
    e.handle_event(&enter, &input(false, false), &nav_at(0), &None, &mut copied);
    assert_eq!(e.text_box.text, "\n");
    assert_eq!(e.text_box.selection.selection.focus.affinity, Affinity::Downstream);
    e.set_newline_mode(textbox_core::edit::NewlineMode::ShiftEnter);
    e.handle_event(&enter, &input(false, false), &nav_at(1), &None, &mut copied);
    assert_eq!(e.text_box.text, "\n");
    e.handle_event(&enter, &input(true, false), &nav_at(1), &None, &mut copied);
    assert_eq!(e.text_box.text, "\n\n");
}

#[test]
fn placeholder_shows_and_clears() {
    let mut e = edit_with("");
    e.set_placeholder("Type here".to_string());
    assert!(e.showing_placeholder());
    assert_eq!(e.text_box.text, "Type here");
    assert_eq!(e.raw_text(), "");
    type_str(&mut e, "a");
    assert!(!e.showing_placeholder());
    assert_eq!(e.text_box.text, "a");
    let mut copied = None;
    e.handle_event(
        &key(Key::Named(NamedKey::Backspace)),
        &input(false, false),
        &Navigation { upstream: Some(Cluster { range: 0..1, whole: false }), ..nav_at(1) },
        &None,
        &mut copied,
    );
    assert!(e.showing_placeholder());
    assert_eq!(e.text_box.text, "Type here");
    assert_eq!(e.text_box.selection.selection.focus.index, 0);
}

#[test]
fn cut_copies_and_deletes_selection() {
    let mut e = edit_with("hello");
    e.text_box.set_selection(Selection::new(
        Cursor::from_byte_index(1, Affinity::Downstream),
        Cursor::from_byte_index(3, Affinity::Downstream),
    ));
    let mut copied = None;
    e.handle_event(&key(Key::Character("x".to_string())), &input(false, true), &nav_at(1), &None, &mut copied);
    assert_eq!(copied, Some("el".to_string()));
    assert_eq!(e.text_box.text, "hlo");
}

#[test]
fn cut_without_selection_does_nothing() {
    let mut e = edit_with("hello");
    let mut copied = None;
    e.handle_event(&key(Key::Character("x".to_string())), &input(false, true), &nav_at(0), &None, &mut copied);
    assert_eq!(copied, None);
    assert_eq!(e.text_box.text, "hello");
}

#[test]
fn delete_at_non_boundary_is_noop() {
    let mut e = edit_with("漢");
    e.move_to_byte(0);
    e.delete(Some(0..1));
    assert_eq!(e.text_box.text, "漢");
    e.delete(Some(0..3));
    assert_eq!(e.text_box.text, "");
}

#[test]
fn backdelete_removes_last_scalar() {
    let mut e = edit_with("aé");
    e.move_to_text_end();
    e.backdelete(Some(Cluster { range: 1..3, whole: false }));
    assert_eq!(e.text_box.text, "a");
    assert_eq!(e.text_box.selection.selection.focus.index, 1);
}

#[test]
fn word_deletions_use_layout_boundaries() {
    let mut e = edit_with("one two");
    e.move_to_text_end();
    e.backdelete_word(4);
    assert_eq!(e.text_box.text, "one ");
    e.move_to_byte(0);
    e.delete_word(4);
    assert_eq!(e.text_box.text, "");
}

#[test]
fn disabled_edit_ignores_events() {
    let mut e = edit_with("abc");
    e.set_disabled(true);
    let mut copied = None;
    let r = e.handle_event(&key(Key::Character("z".to_string())), &input(false, false), &nav_at(0), &None, &mut copied);
    assert!(!r.text_changed && !r.decorations_changed);
    assert_eq!(e.text_box.text, "abc");
}

#[test]
fn composing_blocks_keys() {
    let mut e = edit_with("ab");
    e.move_to_byte(2);
    e.set_compose("k", None);
    let mut copied = None;
    e.handle_event(&key(Key::Character("z".to_string())), &input(false, false), &nav_at(0), &None, &mut copied);
    assert_eq!(e.text_box.text, "abk");
    e.undo();
    assert_eq!(e.text_box.text, "abk");
    e.handle_ime(&Ime::Disabled);
    assert_eq!(e.text_box.text, "ab");
}

#[test]
fn cursor_blinks_by_period() {
    let mut e = edit_with("");
    e.cursor_reset(1000);
    e.cursor_blink(1200);
    assert!(e.show_cursor);
    e.cursor_blink(1600);
    assert!(!e.show_cursor);
    e.cursor_blink(2100);
    assert!(e.show_cursor);
    assert_eq!(e.next_blink_time(1600), Some(2000));
    e.disable_blink();
    e.cursor_blink(2100);
    assert!(!e.show_cursor);
    assert_eq!(e.next_blink_time(2100), None);
}

#[test]
fn scroll_follows_caret_in_single_line() {
    let mut e = edit_with("");
    e.set_single_line(true);
    e.text_box.max_advance = 100;
    e.text_box.full_width = 300;
    assert!(e.update_scroll_to_cursor(Some(300)));
    assert_eq!(e.text_box.scroll_offset, 210);
    assert!(e.update_scroll_to_cursor(Some(50)));
    assert_eq!(e.text_box.scroll_offset, 40);
    e.text_box.full_width = 80;
    e.update_scroll_to_cursor(Some(50));
    assert_eq!(e.text_box.scroll_offset, 0);
}

#[test]
fn wheel_scrolls_within_text() {
    let mut e = edit_with("");
    e.set_single_line(true);
    e.text_box.max_advance = 100;
    e.text_box.full_width = 250;
    assert!(e.handle_wheel(textbox_core::events::ScrollDelta::Line(-2)));
    assert_eq!(e.text_box.scroll_offset, 60);
    assert!(e.handle_wheel(textbox_core::events::ScrollDelta::Pixel(-500)));
    assert_eq!(e.text_box.scroll_offset, 150);
    assert!(!e.handle_wheel(textbox_core::events::ScrollDelta::Pixel(0)));
}

#[test]
fn hidden_caret_does_not_scroll() {
    let mut e = edit_with("");
    e.set_single_line(true);
    e.text_box.max_advance = 100;
    e.text_box.full_width = 300;
    e.show_cursor = false;
    assert!(!e.update_scroll_to_cursor(Some(300)));
    assert_eq!(e.text_box.scroll_offset, 0);
    e.should_follow_cursor = true;
    e.show_cursor = true;
    assert!(e.update_scroll_after_layout(Some(300)));
    assert!(!e.should_follow_cursor);
}

#[test]
fn ctrl_enter_mode_needs_action_modifier() {
    let mut e = edit_with("");
    e.set_newline_mode(textbox_core::edit::NewlineMode::CtrlEnter);
    let mut copied = None;
    let enter = key(Key::Named(NamedKey::Enter));
    e.handle_event(&enter, &input(false, false), &nav_at(0), &None, &mut copied);
    assert_eq!(e.text_box.text, "");
    e.handle_event(&enter, &input(false, true), &nav_at(0), &None, &mut copied);
    assert_eq!(e.text_box.text, "\n");
}

#[test]
fn composing_blocks_touch() {
    let mut e = edit_with("ab");
    e.move_to_byte(2);
    e.set_compose("k", Some((1, 1)));
    let before = e.text_box.selection.selection;
    let mut copied = None;
    let mut n = nav_at(0);
    n.point = Some(textbox_core::events::PointSelections {
        caret: caret(0),
        word: caret(0),
        line: caret(0),
        extended: caret(0),
        extended_from_anchor: caret(0),
    });
    e.handle_event(
        &WindowEvent::Touch { phase: textbox_core::events::TouchPhase::Started, x: 0, y: 0 },
        &input(false, false),
        &n,
        &None,
        &mut copied,
    );
    assert_eq!(e.text_box.text, "abk");
    assert_eq!(e.text_box.selection.selection, before);
}

#[test]
fn backspaces_then_one_undo() {
    let mut e = edit_with("hello");
    e.move_to_text_end();
    let mut copied = None;
    for i in (1..=5).rev() {
        let n = Navigation { upstream: Some(Cluster { range: i - 1..i, whole: false }), ..nav_at(i) };
        e.handle_event(&key(Key::Named(NamedKey::Backspace)), &input(false, false), &n, &None, &mut copied);
        assert_eq!(e.text_box.selection.selection.focus.index, i - 1);
    }
    assert_eq!(e.text_box.text, "");
    e.undo();
    assert_eq!(e.text_box.text, "hello");
    assert_eq!(e.text_box.selection.selection.focus.index, 5);
    assert_eq!(e.history.position(), 0);
}
