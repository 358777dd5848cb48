//! The look of each part of the screen. Colours always come from the
//! terminal; the memo pad only chooses text modifiers.
use vstd::prelude::*;

verus! {

/// The text modifiers that a part of the screen is drawn with, on the
/// terminal's own colours.
#[derive(Clone, Copy, Debug, PartialEq, Eq, Structural)]
pub struct TextStyle {
    pub reversed: bool,
    pub bold: bool,
    pub dim: bool,
}

/// The style with no modifier.
pub open spec fn plain_style() -> TextStyle {
    TextStyle { reversed: false, bold: false, dim: false }
}

/// The terminal's default look, with no modifier.
pub fn plain() -> (style: TextStyle)
    ensures
        style == plain_style(),
{
    TextStyle { reversed: false, bold: false, dim: false }
}

/// The styles of the memo pad's screen parts.
pub struct TerminalStyle;

impl TerminalStyle {
    pub fn background() -> (style: TextStyle)
        ensures
            style == plain_style(),
    {
        plain()
    }

    pub fn toolbar() -> (style: TextStyle)
        ensures
            style == plain_style(),
    {
        plain()
    }

    pub fn button() -> (style: TextStyle)
        ensures
            style == (TextStyle { reversed: true, bold: false, dim: false }),
    {
        TextStyle { reversed: true, ..plain() }
    }

    pub fn destructive_button() -> (style: TextStyle)
        ensures
            style == (TextStyle { reversed: true, bold: true, dim: false }),
    {
        TextStyle { reversed: true, bold: true, ..plain() }
    }

    pub fn disabled() -> (style: TextStyle)
        ensures
            style == (TextStyle { reversed: false, bold: false, dim: true }),
    {
        TextStyle { dim: true, ..plain() }
    }

    /// A memo's border: bold while the memo has the focus, dim otherwise.
    pub fn border(focused: bool) -> (style: TextStyle)
        ensures
            style == (TextStyle { reversed: false, bold: focused, dim: !focused }),
    {
        if focused {
            TextStyle { bold: true, ..plain() }
        } else {
            TextStyle { dim: true, ..plain() }
        }
    }

    pub fn text() -> (style: TextStyle)
        ensures
            style == plain_style(),
    {
        plain()
    }

    pub fn selection() -> (style: TextStyle)
        ensures
            style == (TextStyle { reversed: true, bold: false, dim: false }),
    {
        TextStyle { reversed: true, ..plain() }
    }

    pub fn status() -> (style: TextStyle)
        ensures
            style == (TextStyle { reversed: false, bold: false, dim: true }),
    {
        TextStyle { dim: true, ..plain() }
    }

    pub fn error() -> (style: TextStyle)
        ensures
            style == (TextStyle { reversed: false, bold: true, dim: false }),
    {
        TextStyle { bold: true, ..plain() }
    }

    /// The scrollbar's track: dim.
    pub fn scrollbar() -> (style: TextStyle)
        ensures
            style == (TextStyle { reversed: false, bold: false, dim: true }),
    {
        TextStyle { dim: true, ..plain() }
    }

    /// The scrollbar's thumb: the terminal's own colours.
    pub fn scrollbar_thumb() -> (style: TextStyle)
        ensures
            style == plain_style(),
    {
        plain()
    }

    pub fn modal() -> (style: TextStyle)
        ensures
            style == plain_style(),
    {
        plain()
    }
}

} // verus!
