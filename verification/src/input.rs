use vstd::prelude::*;

verus! {

/// The keys that the engine reacts to; every other key is `Other`.
#[derive(Debug, Clone, Copy, PartialEq, Eq, Structural)]
pub enum Key {
    W,
    A,
    S,
    D,
    Up,
    Down,
    Left,
    Right,
    Space,
    LeftShift,
    Escape,
    Backspace,
    F1,
    F2,
    F3,
    F4,
    Other,
}

/// What happened to a key or mouse button.
#[derive(Debug, Clone, Copy, PartialEq, Eq, Structural)]
pub enum Action {
    Press,
    Release,
    Repeat,
}

/// How the window treats the mouse cursor.
#[derive(Debug, Clone, Copy, PartialEq, Eq, Structural)]
pub enum CursorMode {
    Normal,
    Hidden,
    Disabled,
}

} // verus!
