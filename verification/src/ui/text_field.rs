use vstd::prelude::*;

use super::CursorShape;

verus! {

/// An event that reaches a text field. The window position of a click or a
/// cursor move has already been tested against the field's rectangle.
#[derive(Debug, Clone, Copy, PartialEq, Eq, Structural)]
pub enum FieldEvent {
    /// The primary mouse button was pressed, inside the field or not.
    Click { inside: bool },
    /// The cursor moved, into (or within) the field or outside it.
    CursorMoved { inside: bool },
    /// A character was typed.
    Char(char),
    /// Backspace was pressed.
    Backspace,
    /// Any other event.
    Other,
}

/// What an event did: whether the field consumed it, and the cursor shape
/// to switch to, if any.
#[derive(Debug, Clone, Copy, PartialEq, Eq, Structural)]
pub struct FieldResponse {
    pub handled: bool,
    pub cursor: Option<CursorShape>,
}

/// The editing state of a single-line text field: whether the cursor is
/// over it, whether it has the keyboard focus, and its text.
#[derive(Debug, Clone)]
pub struct TextField {
    pub is_hovering: bool,
    pub is_focused: bool,
    pub content: Vec<char>,
}

/// The abstract state of a text field: hovered, focused, and its text.
pub type FieldView = (bool, bool, Seq<char>);

impl View for TextField {
    type V = FieldView;

    open spec fn view(&self) -> FieldView {
        (self.is_hovering, self.is_focused, self.content@)
    }
}

/// The state after an event, and what the event did. A click inside
/// focuses the field and is consumed; a click elsewhere takes the focus
/// away. Moving the cursor into the field shows the text cursor, moving it
/// out restores the default one. A typed character is appended and
/// Backspace removes the last character, both only while the field has the
/// focus.
pub open spec fn field_step(v: FieldView, event: FieldEvent) -> (FieldView, FieldResponse) {
    let (hovering, focused, content) = v;
    match event {
        FieldEvent::Click { inside } => (
            (hovering, inside, content),
            FieldResponse { handled: inside, cursor: None },
        ),
        FieldEvent::CursorMoved { inside } => (
            (inside, focused, content),
            FieldResponse {
                handled: false,
                cursor: if inside {
                    Some(CursorShape::IBeam)
                } else if hovering {
                    Some(CursorShape::Default)
                } else {
                    None
                },
            },
        ),
        FieldEvent::Char(c) => (
            (hovering, focused, if focused {
                content.push(c)
            } else {
                content
            }),
            FieldResponse { handled: focused, cursor: None },
        ),
        FieldEvent::Backspace => (
            (hovering, focused, if focused && content.len() > 0 {
                content.drop_last()
            } else {
                content
            }),
            FieldResponse { handled: focused, cursor: None },
        ),
        FieldEvent::Other => (v, FieldResponse { handled: false, cursor: None }),
    }
}

impl TextField {
    /// A field holding `content`, neither hovered nor focused.
    pub fn new(content: Vec<char>) -> (field: TextField)
        ensures
            field@ == (false, false, content@),
    {
        TextField { is_hovering: false, is_focused: false, content }
    }

    /// Handles an event as `field_step` says.
    pub fn handle_events(&mut self, event: FieldEvent) -> (response: FieldResponse)
        ensures
            (final(self)@, response) == field_step(old(self)@, event),
    {
        match event {
            FieldEvent::Click { inside } => {
                self.is_focused = inside;
                FieldResponse { handled: inside, cursor: None }
            },
            FieldEvent::CursorMoved { inside } => {
                if inside {
                    self.is_hovering = true;
                    FieldResponse { handled: false, cursor: Some(CursorShape::IBeam) }
                } else if self.is_hovering {
                    self.is_hovering = false;
                    FieldResponse { handled: false, cursor: Some(CursorShape::Default) }
                } else {
                    FieldResponse { handled: false, cursor: None }
                }
            },
            FieldEvent::Char(c) => {
                if self.is_focused {
                    self.content.push(c);
                    FieldResponse { handled: true, cursor: None }
                } else {
                    FieldResponse { handled: false, cursor: None }
                }
            },
            FieldEvent::Backspace => {
                if self.is_focused {
                    self.content.pop();
                    FieldResponse { handled: true, cursor: None }
                } else {
                    FieldResponse { handled: false, cursor: None }
                }
            },
            FieldEvent::Other => FieldResponse { handled: false, cursor: None },
        }
    }
}

/// Law: typing a character into a focused field and then pressing
/// Backspace gives back the field as it was.
pub proof fn lemma_type_then_erase(v: FieldView, c: char)
    requires
        v.1,
    ensures
        field_step(field_step(v, FieldEvent::Char(c)).0, FieldEvent::Backspace).0 == v,
        field_step(v, FieldEvent::Char(c)).1.handled,
{
    assert(v.2.push(c).drop_last() =~= v.2);
}

/// Law: an unfocused field ignores typing: its text stays, and the event is
/// left to others.
pub proof fn lemma_unfocused_ignores_typing(v: FieldView, event: FieldEvent)
    requires
        !v.1,
        event is Char || event is Backspace,
    ensures
        field_step(v, event) == (v, FieldResponse { handled: false, cursor: None }),
{
}

/// Law: after a click the field has the focus exactly when the click was
/// inside it, whatever the focus was before; the click is consumed exactly
/// then, and the text and hover state stay as they were.
pub proof fn lemma_click_sets_focus(v: FieldView, inside: bool)
    ensures
        field_step(v, FieldEvent::Click { inside }).0.1 == inside,
        field_step(v, FieldEvent::Click { inside }).0.0 == v.0,
        field_step(v, FieldEvent::Click { inside }).0.2 == v.2,
        field_step(v, FieldEvent::Click { inside }).1.handled == inside,
{
}
} // verus!
