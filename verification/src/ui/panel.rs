use vstd::prelude::*;

use super::CursorShape;

verus! {

/// An event that reaches a panel. The window position of a press or a
/// cursor move has already been tested against the panel's title bar.
#[derive(Debug, Clone, Copy, PartialEq, Eq, Structural)]
pub enum PanelEvent {
    /// The primary mouse button was pressed, over the title bar or not.
    Press { in_header: bool },
    /// The primary mouse button was released.
    Release,
    /// The cursor moved, over the title bar or elsewhere.
    CursorMoved { in_header: bool },
    /// Any other event.
    Other,
}

/// What an event did to a panel: whether the panel consumed it (else it
/// goes on to the panel's content), whether the panel follows the cursor
/// by the distance it moved since the last drag position, and the cursor
/// shape to switch to, if any.
#[derive(Debug, Clone, Copy, PartialEq, Eq, Structural)]
pub struct PanelResponse {
    pub handled: bool,
    pub follow_cursor: bool,
    pub cursor: Option<CursorShape>,
}

/// The pointer state of a movable panel: whether the cursor is over its
/// title bar, and whether it is being dragged.
#[derive(Debug, Clone, Copy, PartialEq, Eq, Structural)]
pub struct PanelDrag {
    pub is_hovering: bool,
    pub dragging: bool,
}

/// The state after an event, and what the event did. A press on the title
/// bar starts a drag and is consumed; any release ends the drag. Moving
/// the cursor over the title bar shows the hand, moving it away restores
/// the default cursor; while a drag lasts the panel follows the cursor and
/// the move is consumed. Everything else goes on to the content.
pub open spec fn panel_step(v: PanelDrag, event: PanelEvent) -> (PanelDrag, PanelResponse) {
    match event {
        PanelEvent::Press { in_header } => if in_header {
            (
                PanelDrag { dragging: true, ..v },
                PanelResponse { handled: true, follow_cursor: false, cursor: None },
            )
        } else {
            (v, PanelResponse { handled: false, follow_cursor: false, cursor: None })
        },
        PanelEvent::Release => (
            PanelDrag { dragging: false, ..v },
            PanelResponse { handled: false, follow_cursor: false, cursor: None },
        ),
        PanelEvent::CursorMoved { in_header } => (
            PanelDrag { is_hovering: in_header, ..v },
            PanelResponse {
                handled: v.dragging,
                follow_cursor: v.dragging,
                cursor: if in_header {
                    Some(CursorShape::Hand)
                } else if v.is_hovering {
                    Some(CursorShape::Default)
                } else {
                    None
                },
            },
        ),
        PanelEvent::Other => (v, PanelResponse { handled: false, follow_cursor: false, cursor: None }),
    }
}

impl PanelDrag {
    /// A panel that is neither hovered nor dragged.
    pub fn new() -> (drag: PanelDrag)
        ensures
            drag == (PanelDrag { is_hovering: false, dragging: false }),
    {
        PanelDrag { is_hovering: false, dragging: false }
    }

    /// Handles an event as `panel_step` says.
    pub fn handle_events(&mut self, event: PanelEvent) -> (response: PanelResponse)
        ensures
            (*final(self), response) == panel_step(*old(self), event),
    {
        match event {
            PanelEvent::Press { in_header } => {
                if in_header {
                    self.dragging = true;
                    PanelResponse { handled: true, follow_cursor: false, cursor: None }
                } else {
                    PanelResponse { handled: false, follow_cursor: false, cursor: None }
                }
            },
            PanelEvent::Release => {
                self.dragging = false;
                PanelResponse { handled: false, follow_cursor: false, cursor: None }
            },
            PanelEvent::CursorMoved { in_header } => {
                let cursor = if in_header {
                    self.is_hovering = true;
                    Some(CursorShape::Hand)
                } else if self.is_hovering {
                    self.is_hovering = false;
                    Some(CursorShape::Default)
                } else {
                    None
                };
                PanelResponse { handled: self.dragging, follow_cursor: self.dragging, cursor }
            },
            PanelEvent::Other => PanelResponse { handled: false, follow_cursor: false, cursor: None },
        }
    }
}

/// Law: a drag begins only with a press on the title bar, and it lasts
/// until a release.
pub proof fn lemma_drag_start_and_end(v: PanelDrag, event: PanelEvent)
    ensures
        panel_step(v, event).0.dragging ==> v.dragging || event == (PanelEvent::Press {
            in_header: true,
        }),
        event == PanelEvent::Release ==> !panel_step(v, event).0.dragging,
        v.dragging && event != PanelEvent::Release ==> panel_step(v, event).0.dragging,
{
}

/// Law: the panel follows the cursor exactly when the cursor moves during a
/// drag; a press on the title bar, then a move, then a release moves it
/// once and leaves it at rest.
pub proof fn lemma_drag_moves_panel(v: PanelDrag, event: PanelEvent, a: bool, b: bool)
    ensures
        panel_step(v, event).1.follow_cursor <==> v.dragging && event is CursorMoved,
        ({
            let s1 = panel_step(v, PanelEvent::Press { in_header: true }).0;
            let (s2, r2) = panel_step(s1, PanelEvent::CursorMoved { in_header: a });
            let s3 = panel_step(s2, PanelEvent::Release).0;
            &&& r2.follow_cursor
            &&& !s3.dragging
            &&& !panel_step(s3, PanelEvent::CursorMoved { in_header: b }).1.follow_cursor
        }),
{
}

/// Law: only cursor moves change whether the cursor is over the title bar:
/// after a move it is over it exactly when the move ended there, and
/// presses, releases and other events leave the hover state and the cursor
/// shape alone. Moving off the title bar restores the default cursor exactly
/// when the cursor was over it.
pub proof fn lemma_hover_follows_cursor(v: PanelDrag, event: PanelEvent)
    ensures
        !(event is CursorMoved) ==> panel_step(v, event).0.is_hovering == v.is_hovering
            && panel_step(v, event).1.cursor is None,
        event == (PanelEvent::CursorMoved { in_header: true }) ==> panel_step(v, event).0.is_hovering
            && panel_step(v, event).1.cursor == Some(CursorShape::Hand),
        event == (PanelEvent::CursorMoved { in_header: false }) ==> !panel_step(
            v,
            event,
        ).0.is_hovering && (panel_step(v, event).1.cursor == Some(CursorShape::Default)
            <==> v.is_hovering),
{
}
} // verus!
