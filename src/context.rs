//! The layout engine's per-thread state: a layout context and a font
//! context of `parley`.
use parley::{FontContext, LayoutContext};
use vstd::prelude::*;

verus! {

#[verifier::external_type_specification]
#[verifier::external_body]
pub struct ExFontContext(FontContext);

/// Relies on `FontContext::new`: a font context over the system's fonts.
pub assume_specification[ FontContext::new ]() -> FontContext;

/// Color of text runs: red, green, blue, alpha.
#[derive(Clone, Copy, Debug, PartialEq, Eq, Default)]
pub struct ColorBrush(pub [u8; 4]);

/// A layout context of `parley` for [`ColorBrush`] runs. Verus cannot
/// declare `parley::LayoutContext` itself: its parameter is bound by
/// `parley::Brush`, which Verus refuses to read.
#[verifier::external_body]
pub struct LayoutCx(pub LayoutContext<ColorBrush>);

/// Relies on `LayoutContext::new`: an empty layout context.
#[verifier::external_body]
fn new_layout_cx() -> LayoutCx {
    LayoutCx(LayoutContext::new())
}

/// Layout and font contexts, shared by every layout rebuild on a thread.
pub struct TextContext {
    pub layout_cx: LayoutCx,
    pub font_cx: FontContext,
}

impl TextContext {
    /// Fresh contexts.
    pub fn new() -> Self {
        TextContext { layout_cx: new_layout_cx(), font_cx: FontContext::new() }
    }
}

} // verus!
