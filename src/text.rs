//! The registry: owns every text box, text edit and style version, routes
//! events to the focused widget and tracks what must be redrawn.
use crate::edit::{TextEdit, TextEventResult};
use crate::edit_events::{decorations_differ, edit_event_post, follow_post};
use crate::text_box::box_event_post;
use crate::events::{Navigation, TextInputState, WindowEvent};
use crate::slots::{
    box_keys, box_mut, box_slots, edit_keys, edit_mut, edit_slots, get_box, get_edit, get_style,
    insert_box, insert_edit, insert_style, lists_keys, new_boxes, new_edits, remove_box,
    remove_edit, style_mut, style_slots, styles_with, try_remove_style,
};
use crate::selection::Selection;
use crate::text_box::{StyleHandle, TextBox};
use slab::Slab;
use vstd::prelude::*;

verus! {

/// Two left presses closer in time than this (milliseconds) may count as one
/// multi-click.
pub const MULTICLICK_DELAY_MS: u64 = 400;

/// Two left presses closer than this (squared pixels) may count as one
/// multi-click.
pub const MULTICLICK_TOLERANCE_SQUARED: i64 = 26;

/// Handle of a text edit, obtained from [`Text::add_text_edit`].
#[derive(Debug)]
pub struct TextEditHandle {
    i: usize,
}

/// Handle of a text box, obtained from [`Text::add_text_box`].
#[derive(Debug)]
pub struct TextBoxHandle {
    i: usize,
}

impl TextEditHandle {
    pub closed spec fn id(&self) -> nat {
        self.i as nat
    }

    /// The slot index.
    pub fn index(&self) -> (r: usize)
        ensures
            r == self.id(),
    {
        self.i
    }
}

impl TextBoxHandle {
    pub closed spec fn id(&self) -> nat {
        self.i as nat
    }

    /// The slot index.
    pub fn index(&self) -> (r: usize)
        ensures
            r == self.id(),
    {
        self.i
    }
}

/// Either kind of widget, by slot index.
#[derive(Clone, Copy, Debug, PartialEq, Eq, Hash, Structural)]
pub enum AnyBox {
    TextEdit(usize),
    TextBox(usize),
}

/// The last left press.
#[derive(Clone, Copy, Debug)]
pub struct LastClickInfo {
    /// Milliseconds on the host's clock.
    pub time: u64,
    pub pos: (i64, i64),
    pub focused: Option<AnyBox>,
}

/// What the renderer must clear before this frame's submissions.
#[derive(Clone, Copy, Debug, PartialEq, Eq, Structural)]
pub enum Clear {
    Nothing,
    DecorationsOnly,
    All,
}

/// What the renderer must do this frame.
#[derive(Debug)]
pub struct RenderPlan {
    pub clear: Clear,
    /// Widgets to lay out (if stale) and submit, edits first.
    pub widgets: Vec<AnyBox>,
    /// The focused widget whose selection and caret to draw, and whether it
    /// is editable.
    pub decorations: Option<(AnyBox, bool)>,
}

/// Whether a press at `pos` and `now` continues the multi-click started by
/// `last` with the focus unchanged.
pub open spec fn continues_click(last: LastClickInfo, now: u64, pos: (i64, i64), focused: Option<AnyBox>) -> bool {
    let dx = pos.0 - last.pos.0;
    let dy = pos.1 - last.pos.1;
    &&& now >= last.time
    &&& now - last.time < MULTICLICK_DELAY_MS
    &&& last.focused == focused
    &&& dx * dx + dy * dy <= MULTICLICK_TOLERANCE_SQUARED
}

/// The click count after a press.
pub open spec fn next_click_count(last: Option<LastClickInfo>, count: u32, now: u64, pos: (i64, i64), focused: Option<AnyBox>) -> u32 {
    match last {
        Some(l) => if continues_click(l, now, pos, focused) {
            ((count % 3) + 1) as u32
        } else {
            1
        },
        None => 1,
    }
}

/// A left press: when, where, and the focus after it.
pub struct Press {
    pub time: u64,
    pub pos: (i64, i64),
    pub focused: Option<AnyBox>,
}

pub open spec fn as_click(p: Press) -> LastClickInfo {
    LastClickInfo { time: p.time, pos: p.pos, focused: p.focused }
}

/// The click count after a run of presses from a fresh state.
pub open spec fn count_after(ps: Seq<Press>) -> u32
    decreases ps.len(),
{
    if ps.len() == 0 {
        0
    } else if ps.len() == 1 {
        1
    } else {
        let prev = ps.drop_last();
        let p = ps.last();
        next_click_count(Some(as_click(prev.last())), count_after(prev), p.time, p.pos, p.focused)
    }
}

/// How many presses in a row, ending with the last, each continue the one
/// before.
pub open spec fn streak(ps: Seq<Press>) -> nat
    decreases ps.len(),
{
    if ps.len() == 0 {
        0
    } else if ps.len() >= 2 && continues_click(
        as_click(ps[ps.len() - 2]),
        ps.last().time,
        ps.last().pos,
        ps.last().focused,
    ) {
        streak(ps.drop_last()) + 1
    } else {
        1
    }
}

/// The multi-click count follows the number of presses in a row, each within
/// the delay and distance of the one before with the focus unchanged, as
/// 1, 2, 3, 1, 2, 3, ...: so it equals `k` for a run of exactly `k <= 3` such
/// presses.
pub proof fn lemma_click_count_is_streak(ps: Seq<Press>)
    ensures
        ps.len() == 0 ==> count_after(ps) == 0,
        ps.len() > 0 ==> streak(ps) >= 1 && count_after(ps) == (streak(ps) - 1) % 3 + 1,
    decreases ps.len(),
{
    if ps.len() >= 2 {
        lemma_click_count_is_streak(ps.drop_last());
        assert(ps.drop_last().last() == ps[ps.len() - 2]);
        let s = streak(ps.drop_last()) as int;
        assert(((s - 1) % 3 + 1) % 3 + 1 == s % 3 + 1) by (nonlinear_arith)
            requires
                s >= 1,
        ;
    }
}

/// Widgets live in `a` stay live in `b` when `b` holds at least the same
/// keys; the edits' invariant carries over when every edit of `b` has it.
proof fn lemma_live_kept(a: Text, b: Text)
    requires
        a.wf(),
        a.boxes().dom().subset_of(b.boxes().dom()),
        a.edits().dom().subset_of(b.edits().dom()),
        b.focus() == a.focus() || b.focus() is None,
        b.style_versions() == a.style_versions(),
        b.style_counter() == a.style_counter(),
        forall|k: nat| b.edits().contains_key(k) && !(a.edits().contains_key(k) && b.edits()[k] == a.edits()[k])
            ==> (#[trigger] b.edits()[k]).wf() || (a.edits().contains_key(k) && b.edits()[k].text_box.text == a.edits()[k].text_box.text
                && b.edits()[k].history == a.edits()[k].history && b.edits()[k].single_line == a.edits()[k].single_line),
    ensures
        b.wf(),
{
    assert forall|k: nat| b.edits().contains_key(k) implies #[trigger] b.edits()[k].wf() by {
        if a.edits().contains_key(k) {
            assert(a.edits()[k].wf());
        }
    }
    if let Some(f) = b.focus() {
        match f {
            AnyBox::TextEdit(i) => assert(a.edits().contains_key(i as nat)),
            AnyBox::TextBox(i) => assert(a.boxes().contains_key(i as nat)),
        }
    }
}

/// Whether a press at `pos` and `now` continues the multi-click of `last`.
fn continues(last: LastClickInfo, now: u64, pos: (i64, i64), focused: Option<AnyBox>) -> (r: bool)
    ensures
        r == continues_click(last, now, pos, focused),
{
    if now < last.time || now - last.time >= MULTICLICK_DELAY_MS {
        return false;
    }
    let same = match (last.focused, focused) {
        (None, None) => true,
        (Some(AnyBox::TextEdit(x)), Some(AnyBox::TextEdit(y))) => x == y,
        (Some(AnyBox::TextBox(x)), Some(AnyBox::TextBox(y))) => x == y,
        _ => false,
    };
    if !same {
        return false;
    }
    let dx = pos.0 as i128 - last.pos.0 as i128;
    let dy = pos.1 as i128 - last.pos.1 as i128;
    if dx > 5 || dx < -5 || dy > 5 || dy < -5 {
        proof {
            assert(dx * dx + dy * dy > 26) by (nonlinear_arith)
                requires
                    dx > 5 || dx < -5 || dy > 5 || dy < -5,
            ;
        }
        return false;
    }
    proof {
        assert(0 <= dx * dx <= 25 && 0 <= dy * dy <= 25) by (nonlinear_arith)
            requires
                -5 <= dx <= 5,
                -5 <= dy <= 5,
        ;
    }
    dx * dx + dy * dy <= MULTICLICK_TOLERANCE_SQUARED as i128
}

/// A live handle keeps the record it was given: adding a widget (which
/// takes a key that was vacant), removing another widget, or changing
/// another through its own handle leaves the record under `k` as it was.
pub proof fn lemma_live_handle_keeps_record<V>(slots: Map<nat, V>, k: nat, other: nat, v: V)
    requires
        slots.contains_key(k),
        other != k,
    ensures
        slots.insert(other, v).contains_key(k),
        slots.insert(other, v)[k] == slots[k],
        slots.remove(other).contains_key(k),
        slots.remove(other)[k] == slots[k],
{
}

/// After a left press, the focused widget, if any, is a live widget that is
/// not hidden and was touched this frame (the registry's `handle_event`
/// leaves the focus on the frontmost widget hit).
pub proof fn lemma_pressed_focus_is_visible(t: Text, pos: (i64, i64), id: AnyBox)
    requires
        t.topmost(pos, Some(id)),
    ensures
        t.live(id),
        !t.record(id).hidden,
        t.record(id).last_frame_touched == t.frame(),
{
}

/// The invariant carries over a change of styles that keeps every stored
/// version at most the counter, the widgets and the focus being the same.
proof fn lemma_live_kept_styles(a: Text, b: Text)
    requires
        a.wf(),
        b.boxes() == a.boxes(),
        b.edits() == a.edits(),
        b.focus() == a.focus(),
        a.style_counter() <= b.style_counter(),
        forall|k: nat| #[trigger] b.style_versions().contains_key(k) ==> (a.style_versions().contains_key(k)
            && b.style_versions()[k] == a.style_versions()[k]) || b.style_versions()[k] <= b.style_counter(),
    ensures
        b.wf(),
{
    assert forall|k: nat| #[trigger] style_slots(b.styles).contains_key(k) implies style_slots(b.styles)[k]
        <= b.style_version_id_counter by {
        assert(b.style_versions().contains_key(k));
        if a.style_versions().contains_key(k) && b.style_versions()[k] == a.style_versions()[k] {
            assert(style_slots(a.styles).contains_key(k));
        }
    }
    assert forall|k: nat| b.edits().contains_key(k) implies #[trigger] b.edits()[k].wf() by {
        assert(a.edits()[k].wf());
    }
}

/// Hit-testing depends on the widgets and the frame only.
proof fn lemma_topmost_same(a: Text, b: Text, p: (i64, i64), r: Option<AnyBox>)
    requires
        a.boxes() == b.boxes(),
        a.edits() == b.edits(),
        a.frame() == b.frame(),
        a.topmost(p, r),
    ensures
        b.topmost(p, r),
{
    assert forall|o: AnyBox| a.hit(o, p) == b.hit(o, p) && a.depth_of(o) == b.depth_of(o) by {}
    if let Some(id) = r {
        assert forall|o: AnyBox| #[trigger] b.hit(o, p) implies b.depth_of(id) <= b.depth_of(o) by {
            assert(a.hit(o, p));
        }
    } else {
        assert forall|o: AnyBox| !#[trigger] b.hit(o, p) by {
            assert(!a.hit(o, p));
        }
    }
}

/// `f` lost the focus between `o` and `n`: its selection collapsed to its
/// anchor, and an edit's caret is hidden.
pub open spec fn unfocused(o: Text, n: Text, f: AnyBox) -> bool {
    match f {
        AnyBox::TextEdit(i) => n.edits()[i as nat].sel() == Selection::caret(o.edits()[i as nat].sel().anchor)
            && !n.edits()[i as nat].show_cursor,
        AnyBox::TextBox(i) => n.boxes()[i as nat].selection.selection == Selection::caret(
            o.boxes()[i as nat].selection.selection.anchor,
        ),
    }
}

/// A press of the left button.
pub open spec fn is_left_press(e: WindowEvent) -> bool {
    match e {
        WindowEvent::MouseInput { pressed, left } => pressed && left,
        _ => false,
    }
}

/// The centralized registry of text widgets.
pub struct Text {
    text_boxes: Slab<TextBox>,
    text_edits: Slab<TextEdit>,
    styles: Slab<u64>,
    style_version_id_counter: u64,
    input_state: TextInputState,
    focused: Option<AnyBox>,
    text_changed: bool,
    using_frame_based_visibility: bool,
    decorations_changed: bool,
    current_frame: u64,
    last_click: Option<LastClickInfo>,
}

/// Index of the default style.
pub const DEFAULT_STYLE_I: usize = 0;

impl Text {
    pub closed spec fn boxes(&self) -> Map<nat, TextBox> {
        box_slots(self.text_boxes)
    }

    pub closed spec fn edits(&self) -> Map<nat, TextEdit> {
        edit_slots(self.text_edits)
    }

    pub closed spec fn style_versions(&self) -> Map<nat, u64> {
        style_slots(self.styles)
    }

    /// The last style version handed out.
    pub closed spec fn style_counter(&self) -> u64 {
        self.style_version_id_counter
    }

    /// Every stored style version is at most the counter.
    pub closed spec fn versions_bounded(&self) -> bool {
        forall|k: nat| #[trigger] style_slots(self.styles).contains_key(k) ==> style_slots(self.styles)[k]
            <= self.style_version_id_counter
    }

    pub closed spec fn focus(&self) -> Option<AnyBox> {
        self.focused
    }

    pub closed spec fn frame(&self) -> u64 {
        self.current_frame
    }

    pub closed spec fn text_changed_flag(&self) -> bool {
        self.text_changed
    }

    pub closed spec fn decorations_flag(&self) -> bool {
        self.decorations_changed
    }

    pub closed spec fn frame_visibility(&self) -> bool {
        self.using_frame_based_visibility
    }

    pub closed spec fn input(&self) -> TextInputState {
        self.input_state
    }

    pub closed spec fn last_click_info(&self) -> Option<LastClickInfo> {
        self.last_click
    }

    /// `id` names a live widget.
    pub open spec fn live(&self, id: AnyBox) -> bool {
        match id {
            AnyBox::TextEdit(i) => self.edits().contains_key(i as nat),
            AnyBox::TextBox(i) => self.boxes().contains_key(i as nat),
        }
    }

    /// The registry's invariant: the focus, if any, is a live widget and
    /// every text edit keeps its own invariant.
    pub open spec fn wf(&self) -> bool {
        &&& (self.focus() matches Some(f) ==> self.live(f))
        &&& self.versions_bounded()
        &&& forall|k: nat| self.edits().contains_key(k) ==> #[trigger] self.edits()[k].wf()
    }

    /// Whether widget `id` is visible, touched this frame and hit at `pos`
    /// (full rectangle for an edit, laid-out text for a box).
    pub open spec fn hit(&self, id: AnyBox, pos: (i64, i64)) -> bool {
        match id {
            AnyBox::TextEdit(i) => {
                let e = self.edits()[i as nat];
                self.edits().contains_key(i as nat) && !e.text_box.hidden
                    && e.text_box.last_frame_touched == self.frame() && e.text_box.in_full_rect(pos)
            },
            AnyBox::TextBox(i) => {
                let b = self.boxes()[i as nat];
                self.boxes().contains_key(i as nat) && !b.hidden && b.last_frame_touched
                    == self.frame() && b.in_bounding_box(pos)
            },
        }
    }

    pub open spec fn depth_of(&self, id: AnyBox) -> i64 {
        match id {
            AnyBox::TextEdit(i) => self.edits()[i as nat].text_box.depth,
            AnyBox::TextBox(i) => self.boxes()[i as nat].depth,
        }
    }

    /// `r` is the frontmost widget hit at `pos`: a hit widget of least
    /// depth; `None` if no widget is hit.
    pub open spec fn topmost(&self, pos: (i64, i64), r: Option<AnyBox>) -> bool {
        match r {
            Some(id) => self.hit(id, pos) && forall|o: AnyBox|
                #[trigger] self.hit(o, pos) ==> self.depth_of(id) <= self.depth_of(o),
            None => forall|o: AnyBox| !#[trigger] self.hit(o, pos),
        }
    }

    /// An empty registry with the default style, at frame 1, with
    /// everything to be drawn.
    pub fn new() -> (r: Text)
        ensures
            r.wf(),
            r.boxes() == Map::<nat, TextBox>::empty(),
            r.edits() == Map::<nat, TextEdit>::empty(),
            r.style_versions() == map![DEFAULT_STYLE_I as nat => 0u64],
            r.focus() is None,
            r.frame() == 1,
            r.text_changed_flag(),
            r.decorations_flag(),
            !r.frame_visibility(),
    {
        let r = Text {
            text_boxes: new_boxes(),
            text_edits: new_edits(),
            styles: styles_with(DEFAULT_STYLE_I, 0),
            style_version_id_counter: 0,
            input_state: TextInputState::new(),
            focused: None,
            text_changed: true,
            using_frame_based_visibility: false,
            decorations_changed: true,
            current_frame: 1,
            last_click: None,
        };
        proof {
            assert(r.boxes() =~= Map::<nat, TextBox>::empty());
            assert(r.edits() =~= Map::<nat, TextEdit>::empty());
        }
        r
    }

    /// Add a text box, touched this frame; returns its handle.
    pub fn add_text_box(&mut self, text: String, pos: (i64, i64), size: (i64, i64), depth: i64) -> (h: TextBoxHandle)
        requires
            old(self).wf(),
        ensures
            final(self).wf(),
            !old(self).boxes().contains_key(h.id()),
            final(self).boxes().dom() == old(self).boxes().dom().insert(h.id()),
            forall|k: nat| k != h.id() ==> #[trigger] final(self).boxes().contains_key(k) ==> final(self).boxes()[k] == old(self).boxes()[k],
            final(self).boxes()[h.id()].text@ == text@,
            final(self).boxes()[h.id()].pos_spec() == pos,
            final(self).boxes()[h.id()].depth == depth,
            final(self).boxes()[h.id()].width == size.0 && final(self).boxes()[h.id()].height == size.1,
            !final(self).boxes()[h.id()].hidden && !final(self).boxes()[h.id()].can_hide,
            final(self).boxes()[h.id()].last_frame_touched == old(self).frame(),
            final(self).edits() == old(self).edits(),
            final(self).focus() == old(self).focus(),
            final(self).frame() == old(self).frame(),
            final(self).text_changed_flag(),
    {
        let mut b = TextBox::new(text, pos, size, depth);
        b.last_frame_touched = self.current_frame;
        let i = insert_box(&mut self.text_boxes, b);
        self.text_changed = true;
        proof {
            assert(self.boxes().dom() =~= old(self).boxes().dom().insert(i as nat));
            lemma_live_kept(*old(self), *self);
        }
        TextBoxHandle { i }
    }

    /// Add a text edit, touched this frame; returns its handle.
    pub fn add_text_edit(&mut self, text: String, pos: (i64, i64), size: (i64, i64), depth: i64) -> (h: TextEditHandle)
        requires
            old(self).wf(),
        ensures
            final(self).wf(),
            !old(self).edits().contains_key(h.id()),
            final(self).edits().dom() == old(self).edits().dom().insert(h.id()),
            forall|k: nat| k != h.id() ==> #[trigger] final(self).edits().contains_key(k) ==> final(self).edits()[k] == old(self).edits()[k],
            final(self).edits()[h.id()].text_box.text@ == text@,
            final(self).edits()[h.id()].text_box.pos_spec() == pos,
            final(self).edits()[h.id()].text_box.depth == depth,
            !final(self).edits()[h.id()].text_box.hidden,
            final(self).edits()[h.id()].text_box.last_frame_touched == old(self).frame(),
            final(self).edits()[h.id()].history.model().ops.len() == 0,
            final(self).boxes() == old(self).boxes(),
            final(self).focus() == old(self).focus(),
            final(self).frame() == old(self).frame(),
            final(self).text_changed_flag(),
    {
        let mut e = TextEdit::new(text, pos, size, depth);
        e.text_box.last_frame_touched = self.current_frame;
        let i = insert_edit(&mut self.text_edits, e);
        self.text_changed = true;
        proof {
            assert(self.edits().dom() =~= old(self).edits().dom().insert(i as nat));
            lemma_live_kept(*old(self), *self);
        }
        TextEditHandle { i }
    }

    /// The text box of a live handle.
    pub fn get_text_box(&self, handle: &TextBoxHandle) -> (r: &TextBox)
        requires
            self.boxes().contains_key(handle.id()),
        ensures
            *r == self.boxes()[handle.id()],
    {
        get_box(&self.text_boxes, handle.i).unwrap()
    }

    /// The text edit of a live handle.
    pub fn get_text_edit(&self, handle: &TextEditHandle) -> (r: &TextEdit)
        requires
            self.edits().contains_key(handle.id()),
        ensures
            *r == self.edits()[handle.id()],
    {
        get_edit(&self.text_edits, handle.i).unwrap()
    }

    /// Mutable access to the text box of a live handle; marks the text as
    /// changed.
    pub fn get_text_box_mut(&mut self, handle: &TextBoxHandle) -> (r: &mut TextBox)
        requires
            old(self).boxes().contains_key(handle.id()),
        ensures
            final(self).style_versions() == old(self).style_versions(),
            final(self).style_counter() == old(self).style_counter(),
            *r == old(self).boxes()[handle.id()],
            final(self).boxes() == old(self).boxes().insert(handle.id(), *final(r)),
            final(self).edits() == old(self).edits(),
            final(self).focus() == old(self).focus(),
            final(self).frame() == old(self).frame(),
            final(self).text_changed_flag(),
    {
        self.text_changed = true;
        box_mut(&mut self.text_boxes, handle.i)
    }

    /// Mutable access to the text edit of a live handle; marks the text as
    /// changed.
    pub fn get_text_edit_mut(&mut self, handle: &TextEditHandle) -> (r: &mut TextEdit)
        requires
            old(self).edits().contains_key(handle.id()),
        ensures
            final(self).style_versions() == old(self).style_versions(),
            final(self).style_counter() == old(self).style_counter(),
            *r == old(self).edits()[handle.id()],
            final(self).edits() == old(self).edits().insert(handle.id(), *final(r)),
            final(self).boxes() == old(self).boxes(),
            final(self).focus() == old(self).focus(),
            final(self).frame() == old(self).frame(),
            final(self).text_changed_flag(),
    {
        self.text_changed = true;
        edit_mut(&mut self.text_edits, handle.i)
    }

    /// Add a style version slot; returns its handle.
    pub fn add_style(&mut self) -> (h: StyleHandle)
        requires
            old(self).wf(),
        ensures
            final(self).wf(),
            old(self).style_counter() < u64::MAX ==> final(self).style_versions()[h.index_spec()]
                == old(self).style_counter() + 1,
            !old(self).style_versions().contains_key(h.index_spec()),
            final(self).style_versions() == old(self).style_versions().insert(
                h.index_spec(),
                final(self).style_versions()[h.index_spec()],
            ),
            final(self).boxes() == old(self).boxes(),
            final(self).edits() == old(self).edits(),
            final(self).focus() == old(self).focus(),
    {
        let v = self.new_style_id();
        let i = insert_style(&mut self.styles, v);
        proof {
            lemma_live_kept_styles(*old(self), *self);
        }
        StyleHandle::from_index(i)
    }

    /// A fresh style version: the counter, incremented (it stays at the
    /// largest `u64`).
    fn new_style_id(&mut self) -> (r: u64)
        ensures
            r == final(self).style_version_id_counter,
            r >= old(self).style_version_id_counter,
            old(self).style_version_id_counter < u64::MAX ==> r == old(self).style_version_id_counter + 1,
            *final(self) == (Text { style_version_id_counter: r, ..*old(self) }),
    {
        if self.style_version_id_counter < u64::MAX {
            self.style_version_id_counter = self.style_version_id_counter + 1;
        }
        self.style_version_id_counter
    }

    /// Mark a style as changed: it takes a fresh version, so every widget
    /// using it is laid out again.
    pub fn touch_style(&mut self, handle: &StyleHandle)
        requires
            old(self).wf(),
        ensures
            final(self).wf(),
            old(self).style_versions().contains_key(handle.index_spec()) && old(self).style_counter() < u64::MAX
                ==> forall|k: nat| #[trigger] old(self).style_versions().contains_key(k) ==> old(self).style_versions()[k]
                < final(self).style_versions()[handle.index_spec()],
            final(self).style_versions().dom() == old(self).style_versions().dom(),
            old(self).style_versions().contains_key(handle.index_spec()) ==> final(self).style_versions()
                == old(self).style_versions().insert(handle.index_spec(), final(self).style_counter()),
            !old(self).style_versions().contains_key(handle.index_spec()) ==> final(self).style_versions()
                == old(self).style_versions(),
            old(self).style_counter() < u64::MAX ==> final(self).style_counter() == old(self).style_counter() + 1,
            final(self).boxes() == old(self).boxes(),
            final(self).edits() == old(self).edits(),
            final(self).focus() == old(self).focus(),
            final(self).text_changed_flag(),
    {
        let v = self.new_style_id();
        let i = handle.index();
        if get_style(&self.styles, i).is_some() {
            let slot = style_mut(&mut self.styles, i);
            *slot = v;
            proof {
                assert(self.style_versions().dom() =~= old(self).style_versions().dom());
            }
        } else {
            proof {
                assert(self.style_versions() == old(self).style_versions());
            }
        }
        self.text_changed = true;
        proof {
            lemma_live_kept_styles(*old(self), *self);
        }
    }

    /// Remove a style. Widgets using it fall back to the default style.
    pub fn remove_style(&mut self, handle: StyleHandle)
        requires
            old(self).wf(),
        ensures
            final(self).wf(),
            final(self).style_versions() == old(self).style_versions().remove(handle.index_spec()),
            final(self).boxes() == old(self).boxes(),
            final(self).edits() == old(self).edits(),
            final(self).focus() == old(self).focus(),
    {
        try_remove_style(&mut self.styles, handle.index());
        proof {
            assert(self.style_counter() == old(self).style_counter());
            lemma_live_kept_styles(*old(self), *self);
        }
    }

    /// Start a new frame: every widget not refreshed in it counts as hidden.
    pub fn advance_frame_and_hide_boxes(&mut self)
        requires
            old(self).wf(),
            old(self).frame() < u64::MAX,
        ensures
            final(self).wf(),
            final(self).frame() == old(self).frame() + 1,
            final(self).frame_visibility(),
            final(self).boxes() == old(self).boxes(),
            final(self).edits() == old(self).edits(),
            final(self).focus() == old(self).focus(),
    {
        self.current_frame = self.current_frame + 1;
        self.using_frame_based_visibility = true;
        proof {
            assert(self.edits() == old(self).edits());
            assert(self.boxes() == old(self).boxes());
            assert(self.focus() == old(self).focus());
            assert(forall|k: nat| self.edits().contains_key(k) ==> #[trigger] self.edits()[k].wf());
            assert(self.focus() matches Some(f) ==> self.live(f));
        }
    }

    /// Remove a text box, consuming its handle; it loses the focus if it had
    /// it.
    pub fn remove_text_box(&mut self, handle: TextBoxHandle)
        requires
            old(self).wf(),
            old(self).boxes().contains_key(handle.id()),
        ensures
            final(self).wf(),
            final(self).boxes() == old(self).boxes().remove(handle.id()),
            final(self).edits() == old(self).edits(),
            final(self).focus() == (if old(self).focus() == Some(AnyBox::TextBox(handle.id() as usize)) {
                None
            } else {
                old(self).focus()
            }),
            final(self).text_changed_flag(),
    {
        self.text_changed = true;
        if let Some(AnyBox::TextBox(i)) = self.focused {
            if i == handle.i {
                self.focused = None;
            }
        }
        remove_box(&mut self.text_boxes, handle.i);
        proof {
            assert(self.edits() == old(self).edits());
            assert forall|k: nat| self.edits().contains_key(k) implies #[trigger] self.edits()[k].wf() by {
                assert(old(self).edits()[k].wf());
            }
            if let Some(f) = self.focused {
                if let AnyBox::TextBox(j) = f {
                    assert(j != handle.i);
                    assert(old(self).boxes().contains_key(j as nat));
                }
            }
        }
    }

    /// Remove a text edit, consuming its handle; it loses the focus if it had
    /// it.
    pub fn remove_text_edit(&mut self, handle: TextEditHandle)
        requires
            old(self).wf(),
            old(self).edits().contains_key(handle.id()),
        ensures
            final(self).wf(),
            final(self).edits() == old(self).edits().remove(handle.id()),
            final(self).boxes() == old(self).boxes(),
            final(self).focus() == (if old(self).focus() == Some(AnyBox::TextEdit(handle.id() as usize)) {
                None
            } else {
                old(self).focus()
            }),
            final(self).text_changed_flag(),
    {
        self.text_changed = true;
        if let Some(AnyBox::TextEdit(i)) = self.focused {
            if i == handle.i {
                self.focused = None;
            }
        }
        remove_edit(&mut self.text_edits, handle.i);
        proof {
            if let Some(f) = self.focused {
                if let AnyBox::TextEdit(j) = f {
                    assert(j != handle.i);
                    assert(old(self).edits().contains_key(j as nat));
                }
            }
            assert forall|k: nat| self.edits().contains_key(k) implies #[trigger] self.edits()[k].wf() by {
                assert(old(self).edits()[k].wf());
            }
        }
    }

    /// Whether a widget touched at `touched` survives a sweep.
    pub open spec fn survives(&self, touched: u64, can_hide: bool) -> bool {
        touched == self.frame() || can_hide
    }

    /// Remove every widget that was not refreshed this frame and may not
    /// stay hidden; the focus goes if its widget goes. Handles of removed
    /// widgets are left dangling: callers must not use them again.
    pub fn remove_old_nodes(&mut self)
        requires
            old(self).wf(),
        ensures
            final(self).wf(),
            forall|k: nat| #[trigger] final(self).boxes().contains_key(k) <==> old(self).boxes().contains_key(k)
                && old(self).survives(old(self).boxes()[k].last_frame_touched, old(self).boxes()[k].can_hide),
            forall|k: nat| #[trigger] final(self).edits().contains_key(k) <==> old(self).edits().contains_key(k)
                && old(self).survives(old(self).edits()[k].text_box.last_frame_touched, old(self).edits()[k].text_box.can_hide),
            forall|k: nat| #[trigger] final(self).boxes().contains_key(k) ==> final(self).boxes()[k] == old(self).boxes()[k],
            forall|k: nat| #[trigger] final(self).edits().contains_key(k) ==> final(self).edits()[k] == old(self).edits()[k],
            final(self).focus() == (match old(self).focus() {
                Some(f) => if final(self).live(f) {
                    Some(f)
                } else {
                    None
                },
                None => None,
            }),
            final(self).frame() == old(self).frame(),
    {
        let frame = self.current_frame;
        let keys = box_keys(&self.text_boxes);
        let mut j: usize = 0;
        while j < keys.len()
            invariant
                0 <= j <= keys@.len(),
                lists_keys(keys@, old(self).boxes()),
                self.current_frame == frame,
                self.styles == old(self).styles,
                self.style_version_id_counter == old(self).style_version_id_counter,
                frame == old(self).frame(),
                self.edits() == old(self).edits(),
                self.focus() == old(self).focus(),
                forall|k: nat| #[trigger] self.boxes().contains_key(k) ==> old(self).boxes().contains_key(k)
                    && self.boxes()[k] == old(self).boxes()[k],
                forall|k: nat| old(self).boxes().contains_key(k) && old(self).survives(
                    old(self).boxes()[k].last_frame_touched,
                    old(self).boxes()[k].can_hide,
                ) ==> #[trigger] self.boxes().contains_key(k),
                forall|i: int| 0 <= i < j ==> !old(self).survives(
                    old(self).boxes()[keys@[i] as nat].last_frame_touched,
                    old(self).boxes()[keys@[i] as nat].can_hide,
                ) ==> !self.boxes().contains_key(#[trigger] keys@[i] as nat),
                forall|i: int| j <= i < keys@.len() ==> self.boxes().contains_key(#[trigger] keys@[i] as nat),
            decreases keys.len() - j,
        {
            let k = keys[j];
            let b = get_box(&self.text_boxes, k).unwrap();
            if !(b.last_frame_touched == frame || b.can_hide) {
                remove_box(&mut self.text_boxes, k);
            }
            proof {
                assert forall|i: int| j + 1 <= i < keys@.len() implies self.boxes().contains_key(#[trigger] keys@[i] as nat) by {
                    assert(keys@[i] != keys@[j as int]);
                }
            }
            j = j + 1;
        }
        proof {
            assert forall|k: nat| #[trigger] self.boxes().contains_key(k) <==> old(self).boxes().contains_key(k)
                && old(self).survives(old(self).boxes()[k].last_frame_touched, old(self).boxes()[k].can_hide) by {
                if old(self).boxes().contains_key(k) && !old(self).survives(old(self).boxes()[k].last_frame_touched, old(self).boxes()[k].can_hide) {
                    let t = choose|t: int| 0 <= t < keys@.len() && keys@[t] == k;
                    assert(!self.boxes().contains_key(keys@[t] as nat));
                }
            }
        }
        let ghost boxes_after = self.boxes();
        let keys = edit_keys(&self.text_edits);
        let mut j: usize = 0;
        while j < keys.len()
            invariant
                0 <= j <= keys@.len(),
                lists_keys(keys@, old(self).edits()),
                self.current_frame == frame,
                self.styles == old(self).styles,
                self.style_version_id_counter == old(self).style_version_id_counter,
                frame == old(self).frame(),
                self.focus() == old(self).focus(),
                self.boxes() == boxes_after,
                forall|k: nat| #[trigger] self.edits().contains_key(k) ==> old(self).edits().contains_key(k)
                    && self.edits()[k] == old(self).edits()[k],
                forall|k: nat| old(self).edits().contains_key(k) && old(self).survives(
                    old(self).edits()[k].text_box.last_frame_touched,
                    old(self).edits()[k].text_box.can_hide,
                ) ==> #[trigger] self.edits().contains_key(k),
                forall|i: int| 0 <= i < j ==> !old(self).survives(
                    old(self).edits()[keys@[i] as nat].text_box.last_frame_touched,
                    old(self).edits()[keys@[i] as nat].text_box.can_hide,
                ) ==> !self.edits().contains_key(#[trigger] keys@[i] as nat),
                forall|i: int| j <= i < keys@.len() ==> self.edits().contains_key(#[trigger] keys@[i] as nat),
            decreases keys.len() - j,
        {
            let k = keys[j];
            let e = get_edit(&self.text_edits, k).unwrap();
            if !(e.text_box.last_frame_touched == frame || e.text_box.can_hide) {
                remove_edit(&mut self.text_edits, k);
            }
            proof {
                assert forall|i: int| j + 1 <= i < keys@.len() implies self.edits().contains_key(#[trigger] keys@[i] as nat) by {
                    assert(keys@[i] != keys@[j as int]);
                }
            }
            j = j + 1;
        }
        proof {
            assert forall|k: nat| #[trigger] self.edits().contains_key(k) <==> old(self).edits().contains_key(k)
                && old(self).survives(old(self).edits()[k].text_box.last_frame_touched, old(self).edits()[k].text_box.can_hide) by {
                if old(self).edits().contains_key(k) && !old(self).survives(old(self).edits()[k].text_box.last_frame_touched, old(self).edits()[k].text_box.can_hide) {
                    let t = choose|t: int| 0 <= t < keys@.len() && keys@[t] == k;
                    assert(!self.edits().contains_key(keys@[t] as nat));
                }
            }
            assert forall|k: nat| self.edits().contains_key(k) implies #[trigger] self.edits()[k].wf() by {
                assert(old(self).edits().contains_key(k));
                assert(old(self).edits()[k].wf());
            }
        }
        let ghost edits_after = self.edits();
        if let Some(f) = self.focused {
            let keep = match f {
                AnyBox::TextBox(i) => get_box(&self.text_boxes, i).is_some(),
                AnyBox::TextEdit(i) => get_edit(&self.text_edits, i).is_some(),
            };
            if !keep {
                self.focused = None;
            }
        }
        proof {
            assert(self.edits() == edits_after);
            assert(self.versions_bounded());
        }
    }

    /// Candidates for the pointer at `pos`, and the frontmost of them.
    fn find_topmost_at_pos(&self, pos: (i64, i64)) -> (r: Option<AnyBox>)
        ensures
            self.topmost(pos, r),
    {
        let mut topmost: Option<AnyBox> = None;
        let mut top_z: i64 = 0;
        let keys = edit_keys(&self.text_edits);
        let mut j: usize = 0;
        while j < keys.len()
            invariant
                0 <= j <= keys@.len(),
                lists_keys(keys@, self.edits()),
                topmost matches Some(id) ==> self.hit(id, pos) && self.depth_of(id) == top_z,
                forall|i: int| 0 <= i < j ==> self.hit(AnyBox::TextEdit(#[trigger] keys@[i]), pos) ==> topmost is Some && top_z <= self.depth_of(AnyBox::TextEdit(keys@[i])),
            decreases keys.len() - j,
        {
            let k = keys[j];
            let e = get_edit(&self.text_edits, k).unwrap();
            if !e.text_box.hidden && e.text_box.last_frame_touched == self.current_frame
                && e.text_box.hit_full_rect(pos) {
                if topmost.is_none() || e.text_box.depth < top_z {
                    top_z = e.text_box.depth;
                    topmost = Some(AnyBox::TextEdit(k));
                }
            }
            j = j + 1;
        }
        proof {
            assert forall|i: usize| #[trigger] self.hit(AnyBox::TextEdit(i), pos) implies topmost is Some && top_z <= self.depth_of(AnyBox::TextEdit(i)) by {
                let t = choose|t: int| 0 <= t < keys@.len() && keys@[t] == i as nat;
                assert(self.hit(AnyBox::TextEdit(keys@[t]), pos));
            }
        }
        let keys = box_keys(&self.text_boxes);
        let mut j: usize = 0;
        while j < keys.len()
            invariant
                0 <= j <= keys@.len(),
                lists_keys(keys@, self.boxes()),
                topmost matches Some(id) ==> self.hit(id, pos) && self.depth_of(id) == top_z,
                forall|i: usize| #[trigger] self.hit(AnyBox::TextEdit(i), pos) ==> topmost is Some && top_z <= self.depth_of(AnyBox::TextEdit(i)),
                forall|i: int| 0 <= i < j ==> self.hit(AnyBox::TextBox(#[trigger] keys@[i]), pos) ==> topmost is Some && top_z <= self.depth_of(AnyBox::TextBox(keys@[i])),
            decreases keys.len() - j,
        {
            let k = keys[j];
            let b = get_box(&self.text_boxes, k).unwrap();
            if !b.hidden && b.last_frame_touched == self.current_frame && b.hit_bounding_box(pos) {
                if topmost.is_none() || b.depth < top_z {
                    top_z = b.depth;
                    topmost = Some(AnyBox::TextBox(k));
                }
            }
            j = j + 1;
        }
        proof {
            assert forall|i: usize| #[trigger] self.hit(AnyBox::TextBox(i), pos) implies topmost is Some && top_z <= self.depth_of(AnyBox::TextBox(i)) by {
                let t = choose|t: int| 0 <= t < keys@.len() && keys@[t] == i as nat;
                assert(self.hit(AnyBox::TextBox(keys@[t]), pos));
            }
            assert forall|o: AnyBox| #[trigger] self.hit(o, pos) implies topmost is Some && top_z <= self.depth_of(o) by {
                match o {
                    AnyBox::TextEdit(i) => {},
                    AnyBox::TextBox(i) => {},
                }
            }
        }
        topmost
    }

    /// Whether two focus values are the same.
    fn same_focus(a: Option<AnyBox>, b: Option<AnyBox>) -> (r: bool)
        ensures
            r == (a == b),
    {
        match (a, b) {
            (None, None) => true,
            (Some(AnyBox::TextEdit(x)), Some(AnyBox::TextEdit(y))) => x == y,
            (Some(AnyBox::TextBox(x)), Some(AnyBox::TextBox(y))) => x == y,
            _ => false,
        }
    }

    /// Take the focus from `old_focus`: its selection collapses to the
    /// anchor, and an edit hides its caret.
    fn remove_focus(&mut self, old_focus: AnyBox)
        requires
            old(self).wf(),
            old(self).live(old_focus),
        ensures
            final(self).style_versions() == old(self).style_versions(),
            final(self).style_counter() == old(self).style_counter(),
            unfocused(*old(self), *final(self), old_focus),
            final(self).wf(),
            final(self).boxes().dom() == old(self).boxes().dom(),
            final(self).edits().dom() == old(self).edits().dom(),
            final(self).focus() == old(self).focus(),
            final(self).frame() == old(self).frame(),
            final(self).input() == old(self).input(),
            final(self).last_click_info() == old(self).last_click_info(),
            forall|k: nat| #[trigger] final(self).boxes().contains_key(k) ==> final(self).boxes()[k].same_place(old(self).boxes()[k]),
            forall|k: nat| #[trigger] final(self).edits().contains_key(k) ==> final(self).edits()[k].text_box.same_place(old(self).edits()[k].text_box),
    {
        match old_focus {
            AnyBox::TextEdit(i) => {
                let e = edit_mut(&mut self.text_edits, i);
                e.text_box.reset_selection();
                e.show_cursor = false;
                proof {
                    assert(self.edits().dom() =~= old(self).edits().dom());
                    assert(old(self).edits()[i as nat].wf());
                    lemma_live_kept(*old(self), *self);
                }
            },
            AnyBox::TextBox(i) => {
                let b = box_mut(&mut self.text_boxes, i);
                b.reset_selection();
                proof {
                    assert(self.boxes().dom() =~= old(self).boxes().dom());
                    lemma_live_kept(*old(self), *self);
                }
            },
        }
    }

    /// Give the focus to `new_focus` (a live widget or none); the widget that
    /// loses it collapses its selection. Decorations must be redrawn.
    fn refocus(&mut self, new_focus: Option<AnyBox>)
        requires
            old(self).wf(),
            new_focus matches Some(f) ==> old(self).live(f),
        ensures
            final(self).style_versions() == old(self).style_versions(),
            final(self).style_counter() == old(self).style_counter(),
            (old(self).focus() matches Some(f) ==> (new_focus != old(self).focus() ==> unfocused(*old(self), *final(self), f))),
            final(self).wf(),
            final(self).focus() == new_focus,
            final(self).decorations_flag(),
            final(self).boxes().dom() == old(self).boxes().dom(),
            final(self).edits().dom() == old(self).edits().dom(),
            final(self).frame() == old(self).frame(),
            final(self).input() == old(self).input(),
            final(self).last_click_info() == old(self).last_click_info(),
            forall|k: nat| #[trigger] final(self).boxes().contains_key(k) ==> final(self).boxes()[k].same_place(old(self).boxes()[k]),
            forall|k: nat| #[trigger] final(self).edits().contains_key(k) ==> final(self).edits()[k].text_box.same_place(old(self).edits()[k].text_box),
    {
        if !Self::same_focus(new_focus, self.focused) {
            if let Some(old_focus) = self.focused {
                self.remove_focus(old_focus);
            }
        }
        self.focused = new_focus;
        self.decorations_changed = true;
        proof {
            if let Some(f) = new_focus {
                match f {
                    AnyBox::TextEdit(i) => assert(old(self).edits().contains_key(i as nat)),
                    AnyBox::TextBox(i) => assert(old(self).boxes().contains_key(i as nat)),
                }
            }
        }
    }

    /// Count a left press at `now` with the current focus and pointer.
    fn handle_click_counting(&mut self, now: u64)
        ensures
            final(self).style_versions() == old(self).style_versions(),
            final(self).style_counter() == old(self).style_counter(),
            final(self).input().click_count == next_click_count(
                old(self).last_click_info(),
                old(self).input().click_count,
                now,
                old(self).input().cursor_pos,
                old(self).focus(),
            ),
            final(self).last_click_info() == Some(
                LastClickInfo { time: now, pos: old(self).input().cursor_pos, focused: old(self).focus() },
            ),
            final(self).input().cursor_pos == old(self).input().cursor_pos,
            final(self).input().modifiers == old(self).input().modifiers,
            final(self).input().pointer_down == old(self).input().pointer_down,
            final(self).boxes() == old(self).boxes(),
            final(self).edits() == old(self).edits(),
            final(self).focus() == old(self).focus(),
            final(self).frame() == old(self).frame(),
            final(self).decorations_flag() == old(self).decorations_flag(),
            final(self).text_changed_flag() == old(self).text_changed_flag(),
    {
        let pos = self.input_state.cursor_pos;
        let count = self.input_state.click_count;
        let next = match self.last_click {
            Some(last) => {
                if continues(last, now, pos, self.focused) {
                    count % 3 + 1
                } else {
                    1
                }
            },
            None => 1,
        };
        self.input_state.click_count = next;
        self.last_click = Some(LastClickInfo { time: now, pos, focused: self.focused });
    }

    /// First phase of handling a window event: track input; a resize asks
    /// for a full redraw; a left press focuses the frontmost widget under
    /// the pointer (or none) and counts clicks at `now` (milliseconds).
    /// Returns the focused widget, which must then get the event through
    /// [`Text::handle_focused_event`].
    pub fn handle_event(&mut self, event: &WindowEvent, now: u64) -> (r: Option<AnyBox>)
        requires
            old(self).wf(),
        ensures
            final(self).input().cursor_pos == (match *event {
                WindowEvent::CursorMoved { x, y } => (x, y),
                _ => old(self).input().cursor_pos,
            }),
            is_left_press(*event) ==> final(self).decorations_flag(),
            (old(self).focus() matches Some(f) ==> (is_left_press(*event) && final(self).focus() != old(self).focus()
                ==> unfocused(*old(self), *final(self), f))),
            final(self).wf(),
            r == final(self).focus(),
            final(self).boxes().dom() == old(self).boxes().dom(),
            final(self).edits().dom() == old(self).edits().dom(),
            event is Resized ==> final(self).text_changed_flag(),
            (is_left_press(*event) ==> {
                &&& old(self).topmost(final(self).input().cursor_pos, final(self).focus())
                &&& final(self).input().click_count == next_click_count(
                    old(self).last_click_info(),
                    old(self).input().click_count,
                    now,
                    final(self).input().cursor_pos,
                    final(self).focus(),
                )
            }),
            !is_left_press(*event) ==> final(self).focus() == old(self).focus(),
    {
        self.input_state.handle_event(event);
        if let WindowEvent::Resized = event {
            self.text_changed = true;
        }
        proof {
            lemma_live_kept(*old(self), *self);
        }
        if let WindowEvent::MouseInput { pressed, left } = event {
            if *pressed && *left {
                let new_focus = self.find_topmost_at_pos(self.input_state.cursor_pos);
                proof {
                    assert(self.boxes() == old(self).boxes());
                    assert(self.edits() == old(self).edits());
                    assert(self.frame() == old(self).frame());
                    lemma_topmost_same(*self, *old(self), self.input().cursor_pos, new_focus);
                    if let Some(f) = new_focus {
                        assert(self.hit(f, self.input().cursor_pos));
                    }
                }
                self.refocus(new_focus);
                self.handle_click_counting(now);
            }
        }
        self.focused
    }

    /// The frontmost widget under the pointer for a pointer event, as if no
    /// other object occluded it; `None` for other events.
    pub fn find_topmost_text_box(&self, event: &WindowEvent) -> (r: Option<AnyBox>)
        ensures
            event is MouseInput ==> self.topmost(self.input().cursor_pos, r),
            (event matches WindowEvent::CursorMoved { x, y } ==> self.topmost((*x, *y), r)),
            !(event is MouseInput || event is CursorMoved) ==> r is None,
    {
        match event {
            WindowEvent::MouseInput { .. } => self.find_topmost_at_pos(self.input_state.cursor_pos),
            WindowEvent::CursorMoved { x, y } => self.find_topmost_at_pos((*x, *y)),
            _ => None,
        }
    }

    /// Like [`Text::handle_event`], with the frontmost widget decided by the
    /// caller (`None` when something else occludes the text). A widget that
    /// is not live counts as none.
    pub fn handle_event_with_topmost(&mut self, event: &WindowEvent, now: u64, topmost_text_box: Option<AnyBox>) -> (r: Option<AnyBox>)
        requires
            old(self).wf(),
        ensures
            is_left_press(*event) ==> final(self).decorations_flag(),
            (old(self).focus() matches Some(f) ==> (is_left_press(*event) && final(self).focus() != old(self).focus()
                ==> unfocused(*old(self), *final(self), f))),
            final(self).wf(),
            r == final(self).focus(),
            final(self).boxes().dom() == old(self).boxes().dom(),
            final(self).edits().dom() == old(self).edits().dom(),
            (is_left_press(*event) ==> final(self).focus() == (match topmost_text_box {
                Some(t) => if old(self).live(t) {
                    Some(t)
                } else {
                    None
                },
                None => None,
            })),
            !is_left_press(*event) ==> final(self).focus() == old(self).focus(),
    {
        self.input_state.handle_event(event);
        proof {
            lemma_live_kept(*old(self), *self);
        }
        if let WindowEvent::MouseInput { pressed, left } = event {
            if *pressed && *left {
                let target = match topmost_text_box {
                    Some(t) => if self.is_live(t) {
                        Some(t)
                    } else {
                        None
                    },
                    None => None,
                };
                self.refocus(target);
                self.handle_click_counting(now);
            }
        }
        self.focused
    }

    /// Whether `id` names a live widget.
    pub fn is_live(&self, id: AnyBox) -> (r: bool)
        ensures
            r == self.live(id),
    {
        match id {
            AnyBox::TextEdit(i) => get_edit(&self.text_edits, i).is_some(),
            AnyBox::TextBox(i) => get_box(&self.text_boxes, i).is_some(),
        }
    }

    /// The depth of a widget, or the largest `i64` if it is gone.
    pub fn get_text_box_depth(&self, id: &AnyBox) -> (r: i64)
        ensures
            r == (if self.live(*id) {
                self.depth_of(*id)
            } else {
                i64::MAX
            }),
    {
        match id {
            AnyBox::TextEdit(i) => match get_edit(&self.text_edits, *i) {
                Some(e) => e.text_box.depth,
                None => i64::MAX,
            },
            AnyBox::TextBox(i) => match get_box(&self.text_boxes, *i) {
                Some(b) => b.depth,
                None => i64::MAX,
            },
        }
    }

    /// The focused text edit `i` handles the event.
    fn dispatch_to_edit(&mut self, i: usize, event: &WindowEvent, nav: &Navigation, clipboard: &Option<String>) -> (copied: Option<String>)
        requires
            old(self).wf(),
            old(self).focus() == Some(AnyBox::TextEdit(i)),
        ensures
            final(self).wf(),
            final(self).focus() == old(self).focus(),
            final(self).boxes().dom() == old(self).boxes().dom(),
            final(self).edits().dom() == old(self).edits().dom(),
            final(self).frame() == old(self).frame(),
            exists|e: TextEdit, r: TextEventResult|
                #[trigger] edit_event_post(
                    old(self).edits()[i as nat],
                    e,
                    *event,
                    old(self).input(),
                    *nav,
                    *clipboard,
                    None,
                    copied,
                    r,
                ) && final(self).edits() == old(self).edits().insert(
                    i as nat,
                    if r.text_changed {
                        TextEdit { text_box: TextBox { needs_relayout: true, ..e.text_box }, ..e }
                    } else {
                        e
                    },
                ) && final(self).boxes() == old(self).boxes()
                && final(self).text_changed_flag() == (old(self).text_changed_flag() || r.text_changed)
                && final(self).decorations_flag() == (old(self).decorations_flag() || r.decorations_changed),
    {
        let mut copied: Option<String> = None;
        let input = self.input_state;
            proof {
                assert(old(self).edits()[i as nat].wf());
            }
            let e = edit_mut(&mut self.text_edits, i);
            let result = e.handle_event(event, &input, nav, clipboard, &mut copied);
            let ghost e2 = *e;
            proof {
                assert(edit_event_post(old(self).edits()[i as nat], e2, *event, input, *nav, *clipboard, None, copied, result));
            }
            if result.text_changed {
                e.text_box.needs_relayout = true;
            }
            proof {
                assert(self.edits().dom() =~= old(self).edits().dom());
                lemma_live_kept(*old(self), *self);
            }
            if result.text_changed {
                self.text_changed = true;
            }
            if result.decorations_changed {
                self.decorations_changed = true;
            }
            proof {
                assert(self.edits() == old(self).edits().insert(
                    i as nat,
                    if result.text_changed {
                        TextEdit { text_box: TextBox { needs_relayout: true, ..e2.text_box }, ..e2 }
                    } else {
                        e2
                    },
                ));
                assert(self.boxes() == old(self).boxes());
                assert(old(self).input() == input);
            }
        copied
    }

    /// The focused text box `i` handles the event.
    fn dispatch_to_box(&mut self, i: usize, event: &WindowEvent, nav: &Navigation) -> (copied: Option<String>)
        requires
            old(self).wf(),
            old(self).focus() == Some(AnyBox::TextBox(i)),
        ensures
            final(self).wf(),
            final(self).focus() == old(self).focus(),
            final(self).boxes().dom() == old(self).boxes().dom(),
            final(self).edits().dom() == old(self).edits().dom(),
            final(self).frame() == old(self).frame(),
            exists|b: TextBox, d: bool|
                #[trigger] box_event_post(old(self).boxes()[i as nat], b, *event, old(self).input(), *nav, (d, copied))
                && final(self).boxes() == old(self).boxes().insert(i as nat, b)
                && final(self).edits() == old(self).edits()
                && final(self).text_changed_flag() == old(self).text_changed_flag()
                && final(self).decorations_flag() == (old(self).decorations_flag() || d),
    {
        let mut copied: Option<String> = None;
        let input = self.input_state;
            let b = box_mut(&mut self.text_boxes, i);
            let (decorations, c) = b.handle_event(event, &input, nav);
            let ghost nb = *b;
            proof {
                assert(box_event_post(old(self).boxes()[i as nat], nb, *event, input, *nav, (decorations, c)));
            }
            copied = c;
            proof {
                assert(self.boxes().dom() =~= old(self).boxes().dom());
                lemma_live_kept(*old(self), *self);
            }
            if decorations {
                self.decorations_changed = true;
            }
            proof {
                assert(self.boxes() == old(self).boxes().insert(i as nat, nb));
                assert(self.edits() == old(self).edits());
                assert(old(self).input() == input);
                assert(box_event_post(old(self).boxes()[i as nat], nb, *event, old(self).input(), *nav, (decorations, copied)));
            }
        copied
    }

    /// Second phase: the focused widget handles the event with what the
    /// layout engine answered for it. Returns text copied or cut, for the
    /// clipboard. A changed text needs a new layout.
    pub fn handle_focused_event(
        &mut self,
        event: &WindowEvent,
        nav: &Navigation,
        clipboard: &Option<String>,
    ) -> (copied: Option<String>)
        requires
            old(self).wf(),
        ensures
            final(self).wf(),
            final(self).focus() == old(self).focus(),
            final(self).boxes().dom() == old(self).boxes().dom(),
            final(self).edits().dom() == old(self).edits().dom(),
            final(self).frame() == old(self).frame(),
            old(self).focus() is None ==> *final(self) == *old(self) && copied is None,
            old(self).focus() matches Some(AnyBox::TextEdit(i)) ==> exists|e: TextEdit, r: TextEventResult|
                #[trigger] edit_event_post(
                    old(self).edits()[i as nat],
                    e,
                    *event,
                    old(self).input(),
                    *nav,
                    *clipboard,
                    None,
                    copied,
                    r,
                ) && final(self).edits() == old(self).edits().insert(
                    i as nat,
                    if r.text_changed {
                        TextEdit { text_box: TextBox { needs_relayout: true, ..e.text_box }, ..e }
                    } else {
                        e
                    },
                ) && final(self).boxes() == old(self).boxes()
                && final(self).text_changed_flag() == (old(self).text_changed_flag() || r.text_changed)
                && final(self).decorations_flag() == (old(self).decorations_flag() || r.decorations_changed),
            old(self).focus() matches Some(AnyBox::TextBox(i)) ==> exists|b: TextBox, d: bool|
                #[trigger] box_event_post(old(self).boxes()[i as nat], b, *event, old(self).input(), *nav, (d, copied))
                && final(self).boxes() == old(self).boxes().insert(i as nat, b)
                && final(self).edits() == old(self).edits()
                && final(self).text_changed_flag() == old(self).text_changed_flag()
                && final(self).decorations_flag() == (old(self).decorations_flag() || d),
    {
        match self.focused {
            Some(AnyBox::TextEdit(i)) => self.dispatch_to_edit(i, event, nav, clipboard),
            Some(AnyBox::TextBox(i)) => self.dispatch_to_box(i, event, nav),
            None => None,
        }
    }

    /// Enable or disable a text edit; a disabled edit that had the focus
    /// loses it and collapses its selection.
    pub fn set_text_edit_disabled(&mut self, handle: &TextEditHandle, disabled: bool)
        requires
            old(self).wf(),
            old(self).edits().contains_key(handle.id()),
        ensures
            final(self).wf(),
            final(self).edits().dom() == old(self).edits().dom(),
            final(self).boxes() == old(self).boxes(),
            final(self).edits()[handle.id()].disabled == disabled,
            disabled && old(self).focus() == Some(AnyBox::TextEdit(handle.id() as usize)) ==> final(self).focus() is None,
            !(disabled && old(self).focus() == Some(AnyBox::TextEdit(handle.id() as usize))) ==> final(self).focus() == old(self).focus(),
            final(self).text_changed_flag(),
    {
        proof {
            assert(old(self).edits()[handle.id()].wf());
        }
        let e = self.get_text_edit_mut(handle);
        e.set_disabled(disabled);
        if disabled {
            if let Some(AnyBox::TextEdit(i)) = self.focused {
                if i == handle.i {
                    let e = self.get_text_edit_mut(handle);
                    e.text_box.reset_selection();
                    self.focused = None;
                }
            }
        }
        proof {
            assert(self.edits().dom() =~= old(self).edits().dom());
            lemma_live_kept(*old(self), *self);
        }
    }

    /// The text edit under slot `i`.
    pub fn get_text_edit_by_index(&self, i: usize) -> (r: &TextEdit)
        requires
            self.edits().contains_key(i as nat),
        ensures
            *r == self.edits()[i as nat],
    {
        get_edit(&self.text_edits, i).unwrap()
    }

    /// The text box under slot `i`.
    pub fn get_text_box_by_index(&self, i: usize) -> (r: &TextBox)
        requires
            self.boxes().contains_key(i as nat),
        ensures
            *r == self.boxes()[i as nat],
    {
        get_box(&self.text_boxes, i).unwrap()
    }

    /// The pointer position.
    pub fn cursor_pos(&self) -> (r: (i64, i64))
        ensures
            r == self.input().cursor_pos,
    {
        self.input_state.cursor_pos
    }

    /// The focused widget, if any.
    pub fn focused(&self) -> (r: Option<AnyBox>)
        ensures
            r == self.focus(),
    {
        self.focused
    }

    /// The current frame number.
    pub fn current_frame(&self) -> (r: u64)
        ensures
            r == self.frame(),
    {
        self.current_frame
    }

    /// Current click count of the pointer.
    pub fn click_count(&self) -> (r: u32)
        ensures
            r == self.input().click_count,
    {
        self.input_state.click_count
    }

    /// The version of a style, or `None` if it is gone.
    pub fn get_style_version(&self, handle: &StyleHandle) -> (r: Option<u64>)
        ensures
            r == (if self.style_versions().contains_key(handle.index_spec()) {
                Some(self.style_versions()[handle.index_spec()])
            } else {
                None
            }),
    {
        match get_style(&self.styles, handle.index()) {
            Some(v) => Some(*v),
            None => None,
        }
    }

    /// Whether the text changed since the last render plan.
    pub fn get_text_changed(&self) -> (r: bool)
        ensures
            r == self.text_changed_flag(),
    {
        self.text_changed
    }

    /// Replace the whole text of a text edit (see [`TextEdit::set_text`]).
    pub fn set_text_edit_text(&mut self, handle: &TextEditHandle, new_text: String, now: u64)
        requires
            old(self).wf(),
            old(self).edits().contains_key(handle.id()),
        ensures
            final(self).wf(),
            final(self).edits().dom() == old(self).edits().dom(),
            final(self).boxes() == old(self).boxes(),
            final(self).focus() == old(self).focus(),
            final(self).edits()[handle.id()].text_bytes() == crate::edit::single_line_fix(
                crate::buffer::bytes(new_text@),
                old(self).edits()[handle.id()].single_line,
            ),
            final(self).text_changed_flag(),
    {
        proof {
            assert(old(self).edits()[handle.id()].wf());
        }
        let e = self.get_text_edit_mut(handle);
        e.set_text(new_text, now);
        proof {
            assert(self.edits().dom() =~= old(self).edits().dom());
            lemma_live_kept(*old(self), *self);
        }
    }

    /// The version of the style that `style` names, or of the default style
    /// if it is gone.
    fn style_version(&self, style: &StyleHandle) -> (r: u64)
        ensures
            r == self.version_of(style.index_spec()),
    {
        match get_style(&self.styles, style.index()) {
            Some(v) => *v,
            None => match get_style(&self.styles, DEFAULT_STYLE_I) {
                Some(v) => *v,
                None => 0,
            },
        }
    }

    pub open spec fn version_of(&self, style: nat) -> u64 {
        if self.style_versions().contains_key(style) {
            self.style_versions()[style]
        } else if self.style_versions().contains_key(DEFAULT_STYLE_I as nat) {
            self.style_versions()[DEFAULT_STYLE_I as nat]
        } else {
            0
        }
    }

    /// The widget's record as a text box.
    pub open spec fn record(&self, id: AnyBox) -> TextBox {
        match id {
            AnyBox::TextEdit(i) => self.edits()[i as nat].text_box,
            AnyBox::TextBox(i) => self.boxes()[i as nat],
        }
    }

    /// A layout is stale if a relayout was asked for or the style changed
    /// since the last one.
    pub open spec fn stale(&self, id: AnyBox) -> bool {
        self.record(id).needs_relayout || self.record(id).style_id != self.version_of(
            self.record(id).style.index_spec(),
        )
    }

    /// Whether a live widget's layout must be rebuilt.
    pub fn layout_is_stale(&self, id: AnyBox) -> (r: bool)
        requires
            self.live(id),
        ensures
            r == self.stale(id),
    {
        let b = match id {
            AnyBox::TextEdit(i) => &get_edit(&self.text_edits, i).unwrap().text_box,
            AnyBox::TextBox(i) => get_box(&self.text_boxes, i).unwrap(),
        };
        b.needs_relayout || b.style_id != self.style_version(&b.style)
    }

    /// Record that a live widget's layout was rebuilt against its current
    /// text and style, with the content size and one-line width the layout
    /// engine measured.
    pub fn record_layout(&mut self, id: AnyBox, content_width: i64, content_height: i64, full_width: i64)
        requires
            old(self).wf(),
            old(self).live(id),
        ensures
            final(self).wf(),
            !final(self).stale(id),
            final(self).record(id).content_width == content_width,
            final(self).record(id).content_height == content_height,
            final(self).record(id).full_width == full_width,
            final(self).record(id).same_place(
                TextBox { content_width, content_height, ..old(self).record(id) },
            ),
            final(self).record(id).text == old(self).record(id).text,
            final(self).boxes().dom() == old(self).boxes().dom(),
            final(self).edits().dom() == old(self).edits().dom(),
            final(self).focus() == old(self).focus(),
            final(self).frame() == old(self).frame(),
            final(self).style_versions() == old(self).style_versions(),
    {
        match id {
            AnyBox::TextEdit(i) => {
                proof {
                    assert(old(self).edits()[i as nat].wf());
                }
                let v = {
                    let e = get_edit(&self.text_edits, i).unwrap();
                    self.style_version(&e.text_box.style)
                };
                let e = edit_mut(&mut self.text_edits, i);
                e.text_box.needs_relayout = false;
                e.text_box.style_id = v;
                e.text_box.content_width = content_width;
                e.text_box.content_height = content_height;
                e.text_box.full_width = full_width;
                proof {
                    assert(self.edits().dom() =~= old(self).edits().dom());
                    lemma_live_kept(*old(self), *self);
                }
            },
            AnyBox::TextBox(i) => {
                let v = {
                    let b = get_box(&self.text_boxes, i).unwrap();
                    self.style_version(&b.style)
                };
                let b = box_mut(&mut self.text_boxes, i);
                b.needs_relayout = false;
                b.style_id = v;
                b.content_width = content_width;
                b.content_height = content_height;
                b.full_width = full_width;
                proof {
                    assert(self.boxes().dom() =~= old(self).boxes().dom());
                    lemma_live_kept(*old(self), *self);
                }
            },
        }
    }

    /// After the focused widget was laid out again: a focused text edit
    /// follows its caret, at `caret_x` in the new layout, if it was asked to.
    pub fn update_scroll_after_layout(&mut self, caret_x: Option<i64>)
        requires
            old(self).wf(),
        ensures
            final(self).wf(),
            final(self).boxes() == old(self).boxes(),
            final(self).edits().dom() == old(self).edits().dom(),
            final(self).focus() == old(self).focus(),
            !(old(self).focus() matches Some(AnyBox::TextEdit(_))) ==> *final(self) == *old(self),
            old(self).focus() matches Some(AnyBox::TextEdit(i)) ==> exists|e: TextEdit, changed: bool|
                #[trigger] follow_post(old(self).edits()[i as nat], e, caret_x, changed)
                && final(self).edits() == old(self).edits().insert(i as nat, e)
                && final(self).text_changed_flag() == (old(self).text_changed_flag() || changed)
                && final(self).decorations_flag() == old(self).decorations_flag(),
    {
        if let Some(AnyBox::TextEdit(i)) = self.focused {
            proof {
                assert(old(self).edits()[i as nat].wf());
            }
            let e = edit_mut(&mut self.text_edits, i);
            let changed = e.update_scroll_after_layout(caret_x);
            let ghost e2 = *e;
            proof {
                assert(follow_post(old(self).edits()[i as nat], e2, caret_x, changed));
            }
            proof {
                assert(self.edits().dom() =~= old(self).edits().dom());
                lemma_live_kept(*old(self), *self);
            }
            if changed {
                self.text_changed = true;
            }
        }
    }

    /// Whether a widget is drawn this frame: not hidden and touched in it.
    pub open spec fn drawn(&self, id: AnyBox) -> bool {
        self.live(id) && !self.record(id).hidden && self.record(id).last_frame_touched == self.frame()
    }

    /// Whether a widget was touched in the previous frame only.
    pub open spec fn just_hidden(&self, id: AnyBox) -> bool {
        self.live(id) && self.record(id).last_frame_touched as int == self.frame() - 1
    }

    /// Plan this frame's rendering, then reset the dirty flags and the
    /// frame-based visibility mode. With frame-based visibility, a widget
    /// hidden by the frame advance forces a full redraw. On a full redraw
    /// every drawn widget is listed; on any redraw the focused widget's
    /// decorations are drawn.
    pub fn prepare_all(&mut self) -> (plan: RenderPlan)
        requires
            old(self).wf(),
        ensures
            final(self).wf(),
            ({
                let full = old(self).text_changed_flag() || (old(self).frame_visibility() && exists|id: AnyBox| #[trigger] old(self).just_hidden(id));
                &&& plan.clear == (if full {
                    Clear::All
                } else if old(self).decorations_flag() {
                    Clear::DecorationsOnly
                } else {
                    Clear::Nothing
                })
                &&& full ==> forall|id: AnyBox| #[trigger] old(self).drawn(id) <==> plan.widgets@.contains(id)
                &&& !full ==> plan.widgets@.len() == 0
                &&& plan.decorations == (if (full || old(self).decorations_flag()) && old(self).focus() is Some {
                    match old(self).focus()->0 {
                        AnyBox::TextEdit(i) => Some((AnyBox::TextEdit(i), true)),
                        AnyBox::TextBox(i) => Some((AnyBox::TextBox(i), false)),
                    }
                } else {
                    None
                })
            }),
            !final(self).text_changed_flag(),
            !final(self).decorations_flag(),
            !final(self).frame_visibility(),
            final(self).boxes() == old(self).boxes(),
            final(self).edits() == old(self).edits(),
            final(self).focus() == old(self).focus(),
            final(self).frame() == old(self).frame(),
    {
        let frame = self.current_frame;
        let ekeys = edit_keys(&self.text_edits);
        let bkeys = box_keys(&self.text_boxes);
        let mut full = self.text_changed;
        if !full && self.using_frame_based_visibility {
            let mut j: usize = 0;
            while j < ekeys.len()
                invariant
                    0 <= j <= ekeys@.len(),
                    lists_keys(ekeys@, self.edits()),
                    !self.text_changed_flag(),
                    self.frame() == frame,
                    full ==> exists|id: AnyBox| #[trigger] self.just_hidden(id),
                    !full ==> forall|i: int| 0 <= i < j ==> !self.just_hidden(AnyBox::TextEdit(#[trigger] ekeys@[i])),
                decreases ekeys.len() - j,
            {
                let e = get_edit(&self.text_edits, ekeys[j]).unwrap();
                if frame > 0 && e.text_box.last_frame_touched == frame - 1 {
                    full = true;
                    proof {
                        assert(self.just_hidden(AnyBox::TextEdit(ekeys@[j as int])));
                    }
                }
                j = j + 1;
            }
            let mut j: usize = 0;
            while j < bkeys.len()
                invariant
                    0 <= j <= bkeys@.len(),
                    lists_keys(bkeys@, self.boxes()),
                    lists_keys(ekeys@, self.edits()),
                    !self.text_changed_flag(),
                    self.frame() == frame,
                    full ==> exists|id: AnyBox| #[trigger] self.just_hidden(id),
                    !full ==> forall|i: int| 0 <= i < ekeys@.len() ==> !self.just_hidden(AnyBox::TextEdit(#[trigger] ekeys@[i])),
                    !full ==> forall|i: int| 0 <= i < j ==> !self.just_hidden(AnyBox::TextBox(#[trigger] bkeys@[i])),
                decreases bkeys.len() - j,
            {
                let b = get_box(&self.text_boxes, bkeys[j]).unwrap();
                if frame > 0 && b.last_frame_touched == frame - 1 {
                    full = true;
                    proof {
                        assert(self.just_hidden(AnyBox::TextBox(bkeys@[j as int])));
                    }
                }
                j = j + 1;
            }
            proof {
                if !full {
                    assert forall|id: AnyBox| !#[trigger] self.just_hidden(id) by {
                        match id {
                            AnyBox::TextEdit(i) => {
                                if self.just_hidden(id) {
                                    let t = choose|t: int| 0 <= t < ekeys@.len() && ekeys@[t] == i as nat;
                                    assert(!self.just_hidden(AnyBox::TextEdit(ekeys@[t])));
                                }
                            },
                            AnyBox::TextBox(i) => {
                                if self.just_hidden(id) {
                                    let t = choose|t: int| 0 <= t < bkeys@.len() && bkeys@[t] == i as nat;
                                    assert(!self.just_hidden(AnyBox::TextBox(bkeys@[t])));
                                }
                            },
                        }
                    }
                }
            }
        }
        let clear = if full {
            Clear::All
        } else if self.decorations_changed {
            Clear::DecorationsOnly
        } else {
            Clear::Nothing
        };
        let mut widgets: Vec<AnyBox> = Vec::new();
        if full {
            let mut j: usize = 0;
            while j < ekeys.len()
                invariant
                    0 <= j <= ekeys@.len(),
                    lists_keys(ekeys@, self.edits()),
                    self.frame() == frame,
                    forall|w: AnyBox| #[trigger] widgets@.contains(w) ==> self.drawn(w) && w is TextEdit,
                    forall|i: int| 0 <= i < j ==> self.drawn(AnyBox::TextEdit(#[trigger] ekeys@[i])) ==> widgets@.contains(AnyBox::TextEdit(ekeys@[i])),
                decreases ekeys.len() - j,
            {
                let k = ekeys[j];
                let e = get_edit(&self.text_edits, k).unwrap();
                let ghost prev = widgets@;
                if !e.text_box.hidden && e.text_box.last_frame_touched == frame {
                    widgets.push(AnyBox::TextEdit(k));
                    proof {
                        assert(widgets@ == prev.push(AnyBox::TextEdit(k)));
                        assert forall|w: AnyBox| #[trigger] widgets@.contains(w) implies w == AnyBox::TextEdit(k) || prev.contains(w) by {
                            let t = choose|t: int| 0 <= t < widgets@.len() && widgets@[t] == w;
                            if t < prev.len() {
                                assert(prev[t] == w);
                            }
                        }
                        assert forall|w: AnyBox| prev.contains(w) implies #[trigger] widgets@.contains(w) by {
                            let t = choose|t: int| 0 <= t < prev.len() && prev[t] == w;
                            assert(widgets@[t] == w);
                        }
                        assert(widgets@[widgets@.len() - 1] == AnyBox::TextEdit(k));
                    }
                }
                j = j + 1;
            }
            let mut j: usize = 0;
            while j < bkeys.len()
                invariant
                    0 <= j <= bkeys@.len(),
                    lists_keys(bkeys@, self.boxes()),
                    lists_keys(ekeys@, self.edits()),
                    self.frame() == frame,
                    forall|w: AnyBox| #[trigger] widgets@.contains(w) ==> self.drawn(w),
                    forall|i: int| 0 <= i < ekeys@.len() ==> self.drawn(AnyBox::TextEdit(#[trigger] ekeys@[i])) ==> widgets@.contains(AnyBox::TextEdit(ekeys@[i])),
                    forall|i: int| 0 <= i < j ==> self.drawn(AnyBox::TextBox(#[trigger] bkeys@[i])) ==> widgets@.contains(AnyBox::TextBox(bkeys@[i])),
                decreases bkeys.len() - j,
            {
                let k = bkeys[j];
                let b = get_box(&self.text_boxes, k).unwrap();
                let ghost prev = widgets@;
                if !b.hidden && b.last_frame_touched == frame {
                    widgets.push(AnyBox::TextBox(k));
                    proof {
                        assert(widgets@ == prev.push(AnyBox::TextBox(k)));
                        assert forall|w: AnyBox| #[trigger] widgets@.contains(w) implies w == AnyBox::TextBox(k) || prev.contains(w) by {
                            let t = choose|t: int| 0 <= t < widgets@.len() && widgets@[t] == w;
                            if t < prev.len() {
                                assert(prev[t] == w);
                            }
                        }
                        assert forall|w: AnyBox| prev.contains(w) implies #[trigger] widgets@.contains(w) by {
                            let t = choose|t: int| 0 <= t < prev.len() && prev[t] == w;
                            assert(widgets@[t] == w);
                        }
                        assert(widgets@[widgets@.len() - 1] == AnyBox::TextBox(k));
                    }
                }
                j = j + 1;
            }
            proof {
                assert forall|id: AnyBox| #[trigger] self.drawn(id) implies widgets@.contains(id) by {
                    match id {
                        AnyBox::TextEdit(i) => {
                            let t = choose|t: int| 0 <= t < ekeys@.len() && ekeys@[t] == i as nat;
                            assert(self.drawn(AnyBox::TextEdit(ekeys@[t])));
                        },
                        AnyBox::TextBox(i) => {
                            let t = choose|t: int| 0 <= t < bkeys@.len() && bkeys@[t] == i as nat;
                            assert(self.drawn(AnyBox::TextBox(bkeys@[t])));
                        },
                    }
                }
            }
        }
        let decorations = if full || self.decorations_changed {
            match self.focused {
                Some(AnyBox::TextEdit(i)) => Some((AnyBox::TextEdit(i), true)),
                Some(AnyBox::TextBox(i)) => Some((AnyBox::TextBox(i), false)),
                None => None,
            }
        } else {
            None
        };
        self.text_changed = false;
        self.decorations_changed = false;
        self.using_frame_based_visibility = false;
        proof {
            lemma_live_kept(*old(self), *self);
        }
        RenderPlan { clear, widgets, decorations }
    }

    /// Keep a text box visible this frame; a stale handle is ignored.
    pub fn refresh_text_box(&mut self, handle: &TextBoxHandle)
        requires
            old(self).wf(),
        ensures
            final(self).wf(),
            old(self).boxes().contains_key(handle.id()) ==> final(self).boxes() == old(self).boxes().insert(
                handle.id(),
                TextBox { last_frame_touched: old(self).frame(), ..old(self).boxes()[handle.id()] },
            ),
            !old(self).boxes().contains_key(handle.id()) ==> final(self).boxes() == old(self).boxes(),
            final(self).edits() == old(self).edits(),
            final(self).focus() == old(self).focus(),
            final(self).frame() == old(self).frame(),
    {
        if get_box(&self.text_boxes, handle.i).is_some() {
            let frame = self.current_frame;
            let b = box_mut(&mut self.text_boxes, handle.i);
            b.last_frame_touched = frame;
            proof {
                lemma_live_kept(*old(self), *self);
            }
        }
    }

    /// Keep a text edit visible this frame; a stale handle is ignored.
    pub fn refresh_text_edit(&mut self, handle: &TextEditHandle)
        requires
            old(self).wf(),
        ensures
            final(self).wf(),
            old(self).edits().contains_key(handle.id()) ==> final(self).edits() == old(self).edits().insert(
                handle.id(),
                TextEdit {
                    text_box: TextBox { last_frame_touched: old(self).frame(), ..old(self).edits()[handle.id()].text_box },
                    ..old(self).edits()[handle.id()]
                },
            ),
            !old(self).edits().contains_key(handle.id()) ==> final(self).edits() == old(self).edits(),
            final(self).boxes() == old(self).boxes(),
            final(self).focus() == old(self).focus(),
            final(self).frame() == old(self).frame(),
    {
        if get_edit(&self.text_edits, handle.i).is_some() {
            let frame = self.current_frame;
            let e = edit_mut(&mut self.text_edits, handle.i);
            e.text_box.last_frame_touched = frame;
            proof {
                assert(old(self).edits()[handle.id()].wf());
                lemma_live_kept(*old(self), *self);
            }
        }
    }
}

} // verus!
