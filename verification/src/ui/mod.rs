use vstd::prelude::*;

pub mod panel;
pub mod text_field;

verus! {

/// The mouse cursor shape the window should switch to.
#[derive(Debug, Clone, Copy, PartialEq, Eq, Structural)]
pub enum CursorShape {
    /// The text-insertion beam shown over a text field.
    IBeam,
    /// The hand shown over a panel's title bar.
    Hand,
    /// The window's default cursor.
    Default,
}

} // verus!
