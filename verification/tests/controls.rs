use engine::camera::{CameraController, KeyboardOutcome};
use engine::debug::{chunk_grid_lines, DebugController, DebugEffect};
use engine::input::{Action, CursorMode, Key};
use engine::player::{MovementInputs, PlayerController};
use engine::terrain::chunk_bounds::ChunkBounds;
use engine::ui::text_field::{FieldEvent, FieldResponse, TextField};
use engine::ui::CursorShape;
use engine::ui::panel::{PanelDrag, PanelEvent, PanelResponse};

#[test]
fn camera_starts_idle() {
    let c = CameraController::new();
    assert_eq!((c.forward_axis(), c.right_axis(), c.up_axis()), (0, 0, 0));
    assert!(!c.is_active);
}

#[test]
fn camera_movement_keys() {
    let mut c = CameraController::new();
    let handled = KeyboardOutcome { handled: true, cursor_mode: None };
    assert_eq!(c.process_keyboard(Key::W, Action::Press, CursorMode::Normal), handled);
    assert_eq!(c.forward_axis(), 1);
    assert_eq!(c.process_keyboard(Key::Down, Action::Press, CursorMode::Normal), handled);
    assert_eq!(c.forward_axis(), 0);
    assert_eq!(c.process_keyboard(Key::Up, Action::Release, CursorMode::Normal), handled);
    assert_eq!(c.forward_axis(), -1);
    c.process_keyboard(Key::Left, Action::Press, CursorMode::Normal);
    assert_eq!(c.right_axis(), -1);
    c.process_keyboard(Key::D, Action::Press, CursorMode::Normal);
    assert_eq!(c.right_axis(), 0);
    c.process_keyboard(Key::Space, Action::Press, CursorMode::Normal);
    assert_eq!(c.up_axis(), 1);
    c.process_keyboard(Key::LeftShift, Action::Press, CursorMode::Normal);
    assert_eq!(c.up_axis(), 0);
    c.process_keyboard(Key::Space, Action::Release, CursorMode::Normal);
    assert_eq!(c.up_axis(), -1);
}

#[test]
fn camera_ignores_repeat_and_other_keys() {
    let mut c = CameraController::new();
    let ignored = KeyboardOutcome { handled: false, cursor_mode: None };
    assert_eq!(c.process_keyboard(Key::W, Action::Repeat, CursorMode::Normal), ignored);
    assert_eq!(c.process_keyboard(Key::F1, Action::Press, CursorMode::Normal), ignored);
    assert_eq!(c.process_keyboard(Key::Escape, Action::Release, CursorMode::Normal), ignored);
    assert_eq!(c, CameraController::new());
}

#[test]
fn camera_escape_toggles_mouse_look() {
    let mut c = CameraController::new();
    let o = c.process_keyboard(Key::Escape, Action::Press, CursorMode::Normal);
    assert_eq!(o, KeyboardOutcome { handled: true, cursor_mode: Some(CursorMode::Disabled) });
    assert!(c.is_active);
    let o = c.process_keyboard(Key::Escape, Action::Press, CursorMode::Disabled);
    assert_eq!(o, KeyboardOutcome { handled: true, cursor_mode: Some(CursorMode::Normal) });
    assert!(!c.is_active);
    let o = c.process_keyboard(Key::Escape, Action::Press, CursorMode::Hidden);
    assert_eq!(o, KeyboardOutcome { handled: true, cursor_mode: None });
    assert!(c.is_active);
}

#[test]
fn camera_press_then_release_restores() {
    for key in [Key::W, Key::S, Key::A, Key::D, Key::Up, Key::Down, Key::Left, Key::Right, Key::Space, Key::LeftShift] {
        let mut c = CameraController::new();
        c.process_keyboard(key, Action::Press, CursorMode::Normal);
        assert_ne!(c, CameraController::new());
        c.process_keyboard(key, Action::Release, CursorMode::Normal);
        assert_eq!(c, CameraController::new());
    }
}

#[test]
fn player_controller_new_is_idle() {
    let p = PlayerController::new();
    assert_eq!(
        p,
        PlayerController { forward: 0, backward: 0, left: 0, right: 0, dirty: false }
    );
}

#[test]
fn player_controller_reports_changes_once() {
    let mut p = PlayerController::new();
    assert_eq!(p.update(), None);
    p.handle_event(Key::W, Action::Press);
    p.handle_event(Key::A, Action::Press);
    assert!(p.dirty);
    assert_eq!(
        p.update(),
        Some(MovementInputs { forward: 1, backward: 0, left: 1, right: 0 })
    );
    assert_eq!(p.update(), None);
    p.handle_event(Key::W, Action::Release);
    assert_eq!(
        p.update(),
        Some(MovementInputs { forward: 0, backward: 0, left: 1, right: 0 })
    );
}

#[test]
fn player_controller_ignores_other_events() {
    let mut p = PlayerController::new();
    p.handle_event(Key::W, Action::Repeat);
    p.handle_event(Key::Up, Action::Press);
    p.handle_event(Key::Space, Action::Press);
    assert_eq!(p, PlayerController::new());
    p.handle_event(Key::S, Action::Press);
    p.handle_event(Key::D, Action::Press);
    assert_eq!(p, PlayerController { forward: 0, backward: 1, left: 0, right: 1, dirty: true });
}

#[test]
fn debug_keys_toggle() {
    let mut d = DebugController::new();
    assert!(!d.debug_ui && !d.wireframe && d.vsync && !d.show_rays);
    assert_eq!(d.handle_event(Key::F1, Action::Press), DebugEffect::SetWireframe(true));
    assert_eq!(d.handle_event(Key::F1, Action::Press), DebugEffect::SetWireframe(false));
    assert_eq!(d.handle_event(Key::F2, Action::Press), DebugEffect::SetVsync(false));
    assert_eq!(d.handle_event(Key::F3, Action::Press), DebugEffect::NoChange);
    assert!(d.debug_ui);
    assert_eq!(d.handle_event(Key::F4, Action::Press), DebugEffect::NoChange);
    assert!(d.show_rays);
    assert_eq!(d.handle_event(Key::F3, Action::Release), DebugEffect::NoChange);
    assert!(d.debug_ui);
    assert_eq!(d.handle_event(Key::W, Action::Press), DebugEffect::NoChange);
}

#[test]
fn debug_update_tracks_camera_chunk_only_when_shown() {
    let mut d = DebugController::new();
    d.update(Some((300, 5, -10)));
    assert_eq!(d.bounds, ChunkBounds { min: (0, 0, 0), max: (0, 0, 0) });
    d.handle_event(Key::F3, Action::Press);
    d.update(Some((300, 5, -10)));
    assert_eq!(d.bounds, ChunkBounds::of_chunk((2, 0, -1)));
    d.update(None);
    assert_eq!(d.bounds, ChunkBounds::of_chunk((2, 0, -1)));
}

#[test]
fn debug_grid_outline() {
    let b = ChunkBounds::of_chunk((0, 1, 0));
    let (edges, corners) = chunk_grid_lines(&b);
    assert_eq!(corners, vec![(0, 128, 0), (0, 128, 128), (128, 128, 0), (128, 128, 128)]);
    assert_eq!(edges.len(), 28);
    assert_eq!(&edges[..7], &[(0, 128, 16), (0, 128, 32), (0, 128, 48), (0, 128, 64), (0, 128, 80), (0, 128, 96), (0, 128, 112)]);
    assert_eq!(edges[7], (16, 128, 0));
    assert_eq!(edges[8], (16, 128, 128));
    for (x, y, z) in edges.iter().chain(corners.iter()) {
        assert_eq!(*y, 128);
        assert!(*x == 0 || *x == 128 || *z == 0 || *z == 128);
        assert_eq!(x % 16, 0);
        assert_eq!(z % 16, 0);
    }
    let d = DebugController::new();
    assert_eq!(d.grid_lines().1, vec![(0, 0, 0), (0, 0, 128), (128, 0, 0), (128, 0, 128)]);
}

#[test]
fn text_field_focus_and_typing() {
    let mut f = TextField::new("10".chars().collect());
    let none = FieldResponse { handled: false, cursor: None };
    assert_eq!(f.handle_events(FieldEvent::Char('x')), none);
    assert_eq!(f.content, vec!['1', '0']);
    assert_eq!(f.handle_events(FieldEvent::Click { inside: true }), FieldResponse { handled: true, cursor: None });
    assert!(f.is_focused);
    assert_eq!(f.handle_events(FieldEvent::Char('5')), FieldResponse { handled: true, cursor: None });
    assert_eq!(f.content, vec!['1', '0', '5']);
    assert_eq!(f.handle_events(FieldEvent::Backspace), FieldResponse { handled: true, cursor: None });
    assert_eq!(f.content, vec!['1', '0']);
    f.handle_events(FieldEvent::Backspace);
    f.handle_events(FieldEvent::Backspace);
    assert!(f.content.is_empty());
    assert_eq!(f.handle_events(FieldEvent::Backspace), FieldResponse { handled: true, cursor: None });
    assert_eq!(f.handle_events(FieldEvent::Click { inside: false }), none);
    assert!(!f.is_focused);
    assert_eq!(f.handle_events(FieldEvent::Other), none);
}

#[test]
fn text_field_hover_cursor() {
    let mut f = TextField::new(Vec::new());
    assert_eq!(f.handle_events(FieldEvent::CursorMoved { inside: false }), FieldResponse { handled: false, cursor: None });
    assert_eq!(f.handle_events(FieldEvent::CursorMoved { inside: true }), FieldResponse { handled: false, cursor: Some(CursorShape::IBeam) });
    assert!(f.is_hovering);
    assert_eq!(f.handle_events(FieldEvent::CursorMoved { inside: true }), FieldResponse { handled: false, cursor: Some(CursorShape::IBeam) });
    assert_eq!(f.handle_events(FieldEvent::CursorMoved { inside: false }), FieldResponse { handled: false, cursor: Some(CursorShape::Default) });
    assert!(!f.is_hovering);
}

#[test]
fn panel_drag_follows_cursor_until_release() {
    let mut p = PanelDrag::new();
    let none = PanelResponse { handled: false, follow_cursor: false, cursor: None };
    assert_eq!(p.handle_events(PanelEvent::Press { in_header: false }), none);
    assert!(!p.dragging);
    assert_eq!(p.handle_events(PanelEvent::Press { in_header: true }), PanelResponse { handled: true, follow_cursor: false, cursor: None });
    assert!(p.dragging);
    assert_eq!(
        p.handle_events(PanelEvent::CursorMoved { in_header: true }),
        PanelResponse { handled: true, follow_cursor: true, cursor: Some(CursorShape::Hand) }
    );
    assert_eq!(
        p.handle_events(PanelEvent::CursorMoved { in_header: false }),
        PanelResponse { handled: true, follow_cursor: true, cursor: Some(CursorShape::Default) }
    );
    assert_eq!(p.handle_events(PanelEvent::Release), none);
    assert!(!p.dragging);
    assert_eq!(p.handle_events(PanelEvent::CursorMoved { in_header: false }), none);
    assert_eq!(p.handle_events(PanelEvent::Other), none);
    assert_eq!(p, PanelDrag { is_hovering: false, dragging: false });
}
