use textbox_core::context::TextContext;
use textbox_core::events::{Modifiers, Motion, Navigation, WindowEvent};
use textbox_core::selection::{Affinity, Cursor, Selection};
use textbox_core::text::{AnyBox, Clear, Text};
use textbox_core::text_box::StyleHandle;

fn caret(i: usize) -> Selection {
    Selection::from_cursor(Cursor::from_byte_index(i, Affinity::Downstream))
}

fn nav() -> Navigation {
    let m = Motion { moved: caret(0), extended: caret(0) };
    Navigation {
        left: m,
        right: m,
        word_left: m,
        word_right: m,
        up: m,
        down: m,
        line_start: m,
        line_end: m,
        text_start: m,
        text_end: m,
        all: caret(0),
        point: None,
        downstream: None,
        upstream: None,
        next_word: 0,
        prev_word: 0,
    }
}

fn click(t: &mut Text, x: i64, y: i64, now: u64) -> Option<AnyBox> {
    t.handle_event(&WindowEvent::CursorMoved { x, y }, now);
    t.handle_event(&WindowEvent::MouseInput { pressed: true, left: true }, now);
    t.handle_focused_event(&WindowEvent::MouseInput { pressed: true, left: true }, &nav(), &None);
    t.handle_event(&WindowEvent::MouseInput { pressed: false, left: true }, now);
    t.focused()
}

#[test]
fn focus_transfer_on_remove() {
    let mut t = Text::new();
    let a = t.add_text_edit("a".to_string(), (0, 0), (100, 20), 0);
    let b = t.add_text_edit("b".to_string(), (0, 50), (100, 20), 0);
    let bi = b.index();
    assert_eq!(click(&mut t, 10, 10, 0), Some(AnyBox::TextEdit(a.index())));
    t.remove_text_edit(a);
    assert_eq!(t.focused(), None);
    assert_eq!(click(&mut t, 10, 60, 1000), Some(AnyBox::TextEdit(bi)));
}

#[test]
fn get_returns_added_record() {
    let mut t = Text::new();
    let a = t.add_text_box("first".to_string(), (0, 0), (10, 10), 1);
    let b = t.add_text_box("second".to_string(), (5, 5), (10, 10), 2);
    let e = t.add_text_edit("edit".to_string(), (0, 0), (10, 10), 3);
    assert_eq!(t.get_text_box(&a).text(), "first");
    assert_eq!(t.get_text_box(&b).text(), "second");
    assert_eq!(t.get_text_edit(&e).text_box.text(), "edit");
    t.remove_text_box(a);
    let c = t.add_text_box("third".to_string(), (0, 0), (10, 10), 4);
    assert_eq!(t.get_text_box(&b).text(), "second");
    assert_eq!(t.get_text_box(&c).text(), "third");
    t.get_text_box_mut(&b).depth = 9;
    assert_eq!(t.get_text_box(&b).depth(), 9);
    assert!(t.get_text_changed());
}

#[test]
fn topmost_is_least_depth() {
    let mut t = Text::new();
    let back = t.add_text_edit(String::new(), (0, 0), (100, 100), 5);
    let front = t.add_text_edit(String::new(), (10, 10), (20, 20), 1);
    t.handle_event(&WindowEvent::CursorMoved { x: 15, y: 15 }, 0);
    let top = t.find_topmost_text_box(&WindowEvent::CursorMoved { x: 15, y: 15 });
    assert_eq!(top, Some(AnyBox::TextEdit(front.index())));
    let top = t.find_topmost_text_box(&WindowEvent::CursorMoved { x: 50, y: 50 });
    assert_eq!(top, Some(AnyBox::TextEdit(back.index())));
    assert_eq!(t.find_topmost_text_box(&WindowEvent::CursorMoved { x: 500, y: 50 }), None);
    assert_eq!(t.find_topmost_text_box(&WindowEvent::Resized), None);
    assert_eq!(t.get_text_box_depth(&AnyBox::TextEdit(front.index())), 1);
    assert_eq!(t.get_text_box_depth(&AnyBox::TextBox(77)), i64::MAX);
}

#[test]
fn press_focuses_only_visible_touched_widgets() {
    let mut t = Text::new();
    let a = t.add_text_edit(String::new(), (0, 0), (100, 100), 0);
    t.get_text_edit_mut(&a).text_box.hidden = true;
    assert_eq!(click(&mut t, 10, 10, 0), None);
    t.get_text_edit_mut(&a).text_box.hidden = false;
    t.advance_frame_and_hide_boxes();
    assert_eq!(click(&mut t, 10, 10, 1000), None);
    t.refresh_text_edit(&a);
    assert_eq!(click(&mut t, 10, 10, 2000), Some(AnyBox::TextEdit(a.index())));
}

#[test]
fn sweep_keeps_touched_or_hideable() {
    let mut t = Text::new();
    let kept = t.add_text_box("kept".to_string(), (0, 0), (10, 10), 0);
    let hideable = t.add_text_box("hide".to_string(), (0, 0), (10, 10), 0);
    let gone = t.add_text_edit("gone".to_string(), (0, 0), (100, 100), 0);
    let gone_i = gone.index();
    t.get_text_box_mut(&hideable).can_hide = true;
    assert_eq!(click(&mut t, 10, 10, 0), Some(AnyBox::TextEdit(gone_i)));
    t.advance_frame_and_hide_boxes();
    t.refresh_text_box(&kept);
    t.remove_old_nodes();
    assert_eq!(t.get_text_box(&kept).text(), "kept");
    assert_eq!(t.get_text_box(&hideable).text(), "hide");
    assert!(!t.is_live(AnyBox::TextEdit(gone_i)));
    assert_eq!(t.focused(), None);
    std::mem::forget(gone);
}

#[test]
fn multi_click_counts() {
    let mut t = Text::new();
    let _a = t.add_text_edit(String::new(), (0, 0), (100, 100), 0);
    click(&mut t, 10, 10, 0);
    assert_eq!(t.click_count(), 1);
    click(&mut t, 11, 12, 100);
    assert_eq!(t.click_count(), 2);
    click(&mut t, 11, 12, 200);
    assert_eq!(t.click_count(), 3);
    click(&mut t, 11, 12, 300);
    assert_eq!(t.click_count(), 1);
    click(&mut t, 11, 12, 400);
    assert_eq!(t.click_count(), 2);
    click(&mut t, 11, 12, 900);
    assert_eq!(t.click_count(), 1);
    click(&mut t, 30, 12, 1000);
    assert_eq!(t.click_count(), 1);
}

#[test]
fn render_plan_follows_flags() {
    let mut t = Text::new();
    let a = t.add_text_edit("x".to_string(), (0, 0), (100, 100), 0);
    let plan = t.prepare_all();
    assert_eq!(plan.clear, Clear::All);
    assert_eq!(plan.widgets, vec![AnyBox::TextEdit(a.index())]);
    let plan = t.prepare_all();
    assert_eq!(plan.clear, Clear::Nothing);
    assert!(plan.widgets.is_empty());
    click(&mut t, 10, 10, 0);
    let plan = t.prepare_all();
    assert_eq!(plan.clear, Clear::DecorationsOnly);
    assert_eq!(plan.decorations, Some((AnyBox::TextEdit(a.index()), true)));
    t.advance_frame_and_hide_boxes();
    let plan = t.prepare_all();
    assert_eq!(plan.clear, Clear::All);
    assert!(plan.widgets.is_empty());
}

#[test]
fn layout_goes_stale_on_style_change() {
    let mut t = Text::new();
    let a = t.add_text_box("x".to_string(), (0, 0), (100, 100), 0);
    let id = AnyBox::TextBox(a.index());
    assert!(t.layout_is_stale(id));
    t.record_layout(id, 40, 12, 40);
    assert!(!t.layout_is_stale(id));
    let s = t.add_style();
    t.get_text_box_mut(&a).style = s.sneak_clone();
    assert!(t.layout_is_stale(id));
    t.record_layout(id, 40, 12, 40);
    assert!(!t.layout_is_stale(id));
    t.touch_style(&s);
    assert!(t.layout_is_stale(id));
    assert_eq!(t.get_style_version(&StyleHandle::default_style()), Some(0));
    t.remove_style(s);
}

#[test]
fn text_box_hit_uses_laid_out_bounds() {
    let mut t = Text::new();
    let a = t.add_text_box("x".to_string(), (100, 100), (10, 10), 0);
    t.record_layout(AnyBox::TextBox(a.index()), 50, 20, 50);
    assert_eq!(t.find_topmost_text_box(&WindowEvent::CursorMoved { x: 70, y: 110 }), Some(AnyBox::TextBox(a.index())));
    assert_eq!(t.find_topmost_text_box(&WindowEvent::CursorMoved { x: 60, y: 110 }), None);
    assert_eq!(t.find_topmost_text_box(&WindowEvent::CursorMoved { x: 184, y: 110 }), Some(AnyBox::TextBox(a.index())));
    assert_eq!(t.find_topmost_text_box(&WindowEvent::CursorMoved { x: 120, y: 125 }), None);
}

#[test]
fn disabling_drops_focus() {
    let mut t = Text::new();
    let a = t.add_text_edit("x".to_string(), (0, 0), (100, 100), 0);
    click(&mut t, 10, 10, 0);
    t.set_text_edit_disabled(&a, true);
    assert_eq!(t.focused(), None);
    assert!(t.get_text_edit(&a).disabled());
    t.set_text_edit_text(&a, "new".to_string(), 5);
    assert_eq!(t.get_text_edit(&a).text_box.text(), "new");
}

#[test]
fn modifiers_are_tracked() {
    let mut t = Text::new();
    t.handle_event(&WindowEvent::ModifiersChanged(Modifiers { shift: true, action: false }), 0);
    t.handle_event(&WindowEvent::Resized, 0);
    assert!(t.get_text_changed());
    let _cx = TextContext::new();
}

#[test]
fn disabled_focused_edit_keeps_decorations() {
    let mut t = Text::new();
    let a = t.add_text_edit("x".to_string(), (0, 0), (100, 100), 0);
    t.prepare_all();
    click(&mut t, 10, 10, 0);
    t.get_text_edit_mut(&a).set_disabled(true);
    let plan = t.prepare_all();
    assert_eq!(plan.decorations, Some((AnyBox::TextEdit(a.index()), true)));
}

#[test]
fn deepest_possible_widget_can_be_topmost() {
    let mut t = Text::new();
    let a = t.add_text_edit(String::new(), (0, 0), (100, 100), i64::MAX);
    assert_eq!(t.find_topmost_text_box(&WindowEvent::CursorMoved { x: 5, y: 5 }), Some(AnyBox::TextEdit(a.index())));
}

#[test]
fn focus_change_collapses_previous_selection() {
    let mut t = Text::new();
    let a = t.add_text_edit("hello".to_string(), (0, 0), (100, 20), 0);
    let _b = t.add_text_edit("world".to_string(), (0, 50), (100, 20), 0);
    click(&mut t, 10, 10, 0);
    t.get_text_edit_mut(&a).text_box.set_selection(Selection::new(
        Cursor::from_byte_index(1, Affinity::Downstream),
        Cursor::from_byte_index(4, Affinity::Downstream),
    ));
    t.prepare_all();
    click(&mut t, 10, 60, 1000);
    let e = t.get_text_edit(&a);
    assert!(e.selection().is_collapsed());
    assert_eq!(e.selection().focus.index, 1);
    assert!(!e.show_cursor);
    assert_eq!(t.prepare_all().clear, Clear::DecorationsOnly);
}
