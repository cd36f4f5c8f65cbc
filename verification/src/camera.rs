use vstd::prelude::*;

use crate::input::{Action, CursorMode, Key};

verus! {

/// A direction the free camera can be moved in.
#[derive(Debug, Clone, Copy, PartialEq, Eq, Structural)]
pub enum Movement {
    Forward,
    Backward,
    Left,
    Right,
    Up,
    Down,
}

/// The movement a key controls: W or Up moves forward, S or Down backward,
/// A or Left to the left, D or Right to the right, Space up and the left
/// shift key down.
pub open spec fn movement_of(key: Key) -> Option<Movement> {
    match key {
        Key::W | Key::Up => Some(Movement::Forward),
        Key::S | Key::Down => Some(Movement::Backward),
        Key::A | Key::Left => Some(Movement::Left),
        Key::D | Key::Right => Some(Movement::Right),
        Key::Space => Some(Movement::Up),
        Key::LeftShift => Some(Movement::Down),
        _ => None,
    }
}

/// The cursor mode that Escape switches to from `mode`, if any.
pub open spec fn toggled_cursor(mode: CursorMode) -> Option<CursorMode> {
    match mode {
        CursorMode::Disabled => Some(CursorMode::Normal),
        CursorMode::Normal => Some(CursorMode::Disabled),
        CursorMode::Hidden => None,
    }
}

/// What a keyboard event did: whether the controller handled it, and the
/// cursor mode the window should switch to, if any.
#[derive(Debug, Clone, Copy, PartialEq, Eq, Structural)]
pub struct KeyboardOutcome {
    pub handled: bool,
    pub cursor_mode: Option<CursorMode>,
}

/// The key state of the free-flying camera: which movement keys are held
/// down, and whether mouse look is active. A held key moves the camera
/// with amount 1 in its direction, a released one with amount 0.
#[derive(Debug, Clone, Copy, PartialEq, Eq, Structural)]
pub struct CameraController {
    pub amount_forward: bool,
    pub amount_backward: bool,
    pub amount_left: bool,
    pub amount_right: bool,
    pub amount_up: bool,
    pub amount_down: bool,
    pub is_active: bool,
}

impl CameraController {
    /// Whether the key for `m` is held.
    pub open spec fn held(self, m: Movement) -> bool {
        match m {
            Movement::Forward => self.amount_forward,
            Movement::Backward => self.amount_backward,
            Movement::Left => self.amount_left,
            Movement::Right => self.amount_right,
            Movement::Up => self.amount_up,
            Movement::Down => self.amount_down,
        }
    }

    /// `self` with the key for `m` held or released.
    pub open spec fn with_held(self, m: Movement, held: bool) -> CameraController {
        match m {
            Movement::Forward => CameraController { amount_forward: held, ..self },
            Movement::Backward => CameraController { amount_backward: held, ..self },
            Movement::Left => CameraController { amount_left: held, ..self },
            Movement::Right => CameraController { amount_right: held, ..self },
            Movement::Up => CameraController { amount_up: held, ..self },
            Movement::Down => CameraController { amount_down: held, ..self },
        }
    }

    /// The controller after a key event, and what the event did.
    pub open spec fn spec_keyboard(self, key: Key, action: Action, cursor: CursorMode) -> (
        CameraController,
        KeyboardOutcome,
    ) {
        match movement_of(key) {
            Some(m) => match action {
                Action::Press => (
                    self.with_held(m, true),
                    KeyboardOutcome { handled: true, cursor_mode: None },
                ),
                Action::Release => (
                    self.with_held(m, false),
                    KeyboardOutcome { handled: true, cursor_mode: None },
                ),
                Action::Repeat => (self, KeyboardOutcome { handled: false, cursor_mode: None }),
            },
            None => if key == Key::Escape && action == Action::Press {
                (
                    CameraController { is_active: !self.is_active, ..self },
                    KeyboardOutcome { handled: true, cursor_mode: toggled_cursor(cursor) },
                )
            } else {
                (self, KeyboardOutcome { handled: false, cursor_mode: None })
            },
        }
    }

    /// A controller with no key held and mouse look off.
    pub fn new() -> (controller: CameraController)
        ensures
            !controller.amount_forward && !controller.amount_backward,
            !controller.amount_left && !controller.amount_right,
            !controller.amount_up && !controller.amount_down,
            !controller.is_active,
    {
        CameraController {
            amount_forward: false,
            amount_backward: false,
            amount_left: false,
            amount_right: false,
            amount_up: false,
            amount_down: false,
            is_active: false,
        }
    }

    /// Handles a key event: a press of a movement key holds it, a release
    /// lets it go, and a press of Escape switches mouse look on or off and
    /// the cursor between normal and disabled. `cursor` is the window's
    /// cursor mode before the event. Returns whether the event was handled
    /// and the cursor mode to switch to.
    pub fn process_keyboard(&mut self, key: Key, action: Action, cursor: CursorMode) -> (outcome:
        KeyboardOutcome)
        ensures
            (*final(self), outcome) == old(self).spec_keyboard(key, action, cursor),
    {
        let held = match action {
            Action::Press => true,
            Action::Release => false,
            Action::Repeat => {
                if !is_movement_key(key) {
                    return self.process_other_key(key, action, cursor);
                }
                return KeyboardOutcome { handled: false, cursor_mode: None };
            },
        };
        match key {
            Key::W | Key::Up => self.amount_forward = held,
            Key::S | Key::Down => self.amount_backward = held,
            Key::A | Key::Left => self.amount_left = held,
            Key::D | Key::Right => self.amount_right = held,
            Key::Space => self.amount_up = held,
            Key::LeftShift => self.amount_down = held,
            _ => {
                return self.process_other_key(key, action, cursor);
            },
        }
        KeyboardOutcome { handled: true, cursor_mode: None }
    }

    fn process_other_key(&mut self, key: Key, action: Action, cursor: CursorMode) -> (outcome:
        KeyboardOutcome)
        requires
            movement_of(key) is None,
        ensures
            (*final(self), outcome) == old(self).spec_keyboard(key, action, cursor),
    {
        if key == Key::Escape && action == Action::Press {
            self.is_active = !self.is_active;
            let cursor_mode = match cursor {
                CursorMode::Disabled => Some(CursorMode::Normal),
                CursorMode::Normal => Some(CursorMode::Disabled),
                CursorMode::Hidden => None,
            };
            KeyboardOutcome { handled: true, cursor_mode }
        } else {
            KeyboardOutcome { handled: false, cursor_mode: None }
        }
    }

    /// The forward movement: 1 when only forward is held, -1 when only
    /// backward is held, 0 otherwise.
    pub fn forward_axis(&self) -> (axis: i8)
        ensures
            axis == (self.amount_forward as int) - (self.amount_backward as int),
    {
        axis(self.amount_forward, self.amount_backward)
    }

    /// The sideways movement, positive to the right.
    pub fn right_axis(&self) -> (axis: i8)
        ensures
            axis == (self.amount_right as int) - (self.amount_left as int),
    {
        axis(self.amount_right, self.amount_left)
    }

    /// The vertical movement, positive upwards.
    pub fn up_axis(&self) -> (axis: i8)
        ensures
            axis == (self.amount_up as int) - (self.amount_down as int),
    {
        axis(self.amount_up, self.amount_down)
    }
}

fn is_movement_key(key: Key) -> (r: bool)
    ensures
        r == (movement_of(key) is Some),
{
    match key {
        Key::W | Key::Up | Key::S | Key::Down | Key::A | Key::Left | Key::D | Key::Right
        | Key::Space | Key::LeftShift => true,
        _ => false,
    }
}

fn axis(positive: bool, negative: bool) -> (a: i8)
    ensures
        a == (positive as int) - (negative as int),
{
    if positive == negative {
        0
    } else if positive {
        1
    } else {
        -1
    }
}

/// Law: pressing a movement key and then releasing it leaves the
/// controller as it was before the press when the key was not held; and
/// pressing Escape twice switches mouse look back to its first state.
pub proof fn lemma_press_release(c: CameraController, key: Key, cursor: CursorMode)
    requires
        movement_of(key) is Some,
        !c.held(movement_of(key)->0),
    ensures
        c.spec_keyboard(key, Action::Press, cursor).0.spec_keyboard(
            key,
            Action::Release,
            cursor,
        ).0 == c,
        c.spec_keyboard(key, Action::Press, cursor).0.held(movement_of(key)->0),
{
}

/// Law: two presses of Escape restore mouse look, and the cursor mode
/// switches back as well.
pub proof fn lemma_escape_twice(c: CameraController, cursor: CursorMode)
    ensures
        ({
            let (c1, o1) = c.spec_keyboard(Key::Escape, Action::Press, cursor);
            let (c2, o2) = c1.spec_keyboard(
                Key::Escape,
                Action::Press,
                match o1.cursor_mode {
                    Some(m) => m,
                    None => cursor,
                },
            );
            &&& c2 == c
            &&& c1.is_active == !c.is_active
            &&& (o1.cursor_mode is Some ==> o2.cursor_mode == Some(cursor))
        }),
{
}

/// Law: a movement key event changes only the amount of that key's
/// movement, and no other event changes any amount.
pub proof fn lemma_keyboard_frame(c: CameraController, key: Key, action: Action, cursor: CursorMode, m: Movement)
    requires
        movement_of(key) != Some(m),
    ensures
        c.spec_keyboard(key, action, cursor).0.held(m) == c.held(m),
{
}

/// Law: a repeat event, sent while a key is held down, changes nothing:
/// whatever the key, the controller stays as it is, the event is not
/// handled and the cursor mode is left alone. Only presses and releases
/// change which movement keys are held.
pub proof fn lemma_repeat_changes_nothing(c: CameraController, key: Key, cursor: CursorMode)
    ensures
        c.spec_keyboard(key, Action::Repeat, cursor).0 == c,
        !c.spec_keyboard(key, Action::Repeat, cursor).1.handled,
        c.spec_keyboard(key, Action::Repeat, cursor).1.cursor_mode is None,
{
}

/// Law: after a movement key is pressed, the movement stays on through any
/// number of repeat events, with an amount of 1 on its axis when the
/// opposite key is not held.
pub proof fn lemma_held_through_repeats(c: CameraController, key: Key, cursor: CursorMode, n: nat)
    requires
        movement_of(key) is Some,
    ensures
        repeated(c.spec_keyboard(key, Action::Press, cursor).0, key, cursor, n).held(
            movement_of(key)->0,
        ),
        (key == Key::W || key == Key::Up) && !c.amount_backward ==> repeated(
            c.spec_keyboard(key, Action::Press, cursor).0,
            key,
            cursor,
            n,
        ).amount_forward,
    decreases n,
{
    if n > 0 {
        lemma_held_through_repeats(c, key, cursor, (n - 1) as nat);
    }
}

/// The controller after `n` repeat events of `key`.
pub open spec fn repeated(c: CameraController, key: Key, cursor: CursorMode, n: nat) -> CameraController
    decreases n,
{
    if n == 0 {
        c
    } else {
        repeated(c, key, cursor, (n - 1) as nat).spec_keyboard(key, Action::Repeat, cursor).0
    }
}
} // verus!
