//! Core of a retained-mode text widget system: a registry of text boxes and
//! editable text boxes, focus and event routing, an undo/redo history with
//! coalescing, and the editing state machine.
use vstd::prelude::*;

pub mod buffer;
pub mod context;
pub mod selection;
pub mod history;
pub mod text_box;
pub mod edit;
pub mod edit_events;
pub mod events;
pub mod slots;
pub mod text;

verus! {

} // verus!
