use vstd::prelude::*;

use crate::animation_graph::AnimationGraph;
use crate::input::{Action, Key};

verus! {

/// The animation inputs that the player's movement keys drive: each is 1
/// while its key is held and 0 otherwise.
#[derive(Debug, Clone, Copy, PartialEq, Eq, Structural)]
pub struct MovementInputs {
    pub forward: i32,
    pub backward: i32,
    pub left: i32,
    pub right: i32,
}

/// The player's movement keys (W, S, A and D) and whether they changed
/// since the animation inputs were last set from them.
#[derive(Debug, Clone, Copy, PartialEq, Eq, Structural)]
pub struct PlayerController {
    pub forward: i32,
    pub backward: i32,
    pub left: i32,
    pub right: i32,
    pub dirty: bool,
}

/// `m` with `name` set to `value` when `name` is one of its keys.
pub open spec fn set_existing(m: Map<Seq<char>, i32>, name: Seq<char>, value: i32) -> Map<
    Seq<char>,
    i32,
> {
    if m.contains_key(name) {
        m.insert(name, value)
    } else {
        m
    }
}

impl PlayerController {
    /// The controller after a key event.
    pub open spec fn spec_handle_event(self, key: Key, action: Action) -> PlayerController {
        let amount = if action == Action::Press {
            1i32
        } else {
            0i32
        };
        if action == Action::Repeat {
            self
        } else {
            match key {
                Key::W => PlayerController { forward: amount, dirty: true, ..self },
                Key::S => PlayerController { backward: amount, dirty: true, ..self },
                Key::A => PlayerController { left: amount, dirty: true, ..self },
                Key::D => PlayerController { right: amount, dirty: true, ..self },
                _ => self,
            }
        }
    }

    /// A controller with no key held and nothing to report.
    pub fn new() -> (controller: PlayerController)
        ensures
            controller == (PlayerController {
                forward: 0,
                backward: 0,
                left: 0,
                right: 0,
                dirty: false,
            }),
    {
        PlayerController { forward: 0, backward: 0, left: 0, right: 0, dirty: false }
    }

    /// Handles a key event: a press of W, S, A or D sets its input to 1, a
    /// release to 0, and either marks the inputs as changed.
    pub fn handle_event(&mut self, key: Key, action: Action)
        ensures
            *final(self) == old(self).spec_handle_event(key, action),
    {
        let amount: i32 = match action {
            Action::Press => 1,
            Action::Release => 0,
            Action::Repeat => {
                return;
            },
        };
        match key {
            Key::W => {
                self.forward = amount;
                self.dirty = true;
            },
            Key::S => {
                self.backward = amount;
                self.dirty = true;
            },
            Key::A => {
                self.left = amount;
                self.dirty = true;
            },
            Key::D => {
                self.right = amount;
                self.dirty = true;
            },
            _ => {},
        }
    }

    /// The inputs to hand to the animation graph when they changed since
    /// the last call, and `None` otherwise; afterwards they count as
    /// unchanged.
    pub fn update(&mut self) -> (inputs: Option<MovementInputs>)
        ensures
            inputs == (if old(self).dirty {
                Some(
                    MovementInputs {
                        forward: old(self).forward,
                        backward: old(self).backward,
                        left: old(self).left,
                        right: old(self).right,
                    },
                )
            } else {
                None
            }),
            *final(self) == (PlayerController { dirty: false, ..*old(self) }),
    {
        let inputs = if self.dirty {
            Some(
                MovementInputs {
                    forward: self.forward,
                    backward: self.backward,
                    left: self.left,
                    right: self.right,
                },
            )
        } else {
            None
        };
        self.dirty = false;
        inputs
    }
}

impl MovementInputs {
    /// Sets the graph inputs `forward`, `backward`, `left` and `right` to
    /// these values; a name that is not an input of the graph is skipped.
    pub fn apply_to(&self, graph: &mut AnimationGraph)
        requires
            old(graph).wf(),
        ensures
            final(graph).wf(),
            final(graph).inputs_view() == set_existing(
                set_existing(
                    set_existing(
                        set_existing(old(graph).inputs_view(), "forward"@, self.forward),
                        "backward"@,
                        self.backward,
                    ),
                    "left"@,
                    self.left,
                ),
                "right"@,
                self.right,
            ),
            final(graph).states_view() == old(graph).states_view(),
            final(graph).current() == old(graph).current(),
            final(graph).previous() == old(graph).previous(),
            final(graph).default() == old(graph).default(),
    {
        graph.set_input("forward", self.forward);
        graph.set_input("backward", self.backward);
        graph.set_input("left", self.left);
        graph.set_input("right", self.right);
    }
}

/// Law: pressing a movement key and then releasing it brings its input back
/// to 0 and leaves the inputs marked as changed.
pub proof fn lemma_press_release(c: PlayerController, key: Key)
    requires
        key == Key::W || key == Key::S || key == Key::A || key == Key::D,
    ensures
        ({
            let pressed = c.spec_handle_event(key, Action::Press);
            let released = pressed.spec_handle_event(key, Action::Release);
            &&& released.dirty
            &&& key == Key::W ==> pressed.forward == 1 && released.forward == 0
            &&& key == Key::S ==> pressed.backward == 1 && released.backward == 0
            &&& key == Key::A ==> pressed.left == 1 && released.left == 0
            &&& key == Key::D ==> pressed.right == 1 && released.right == 0
            &&& released == (PlayerController {
                forward: if key == Key::W {
                    0
                } else {
                    c.forward
                },
                backward: if key == Key::S {
                    0
                } else {
                    c.backward
                },
                left: if key == Key::A {
                    0
                } else {
                    c.left
                },
                right: if key == Key::D {
                    0
                } else {
                    c.right
                },
                dirty: true,
            })
        }),
{
}

/// Law: a repeat event, sent while a key is held down, leaves the whole
/// controller unchanged, whatever the key.
pub proof fn lemma_repeat_changes_nothing(c: PlayerController, key: Key)
    ensures
        c.spec_handle_event(key, Action::Repeat) == c,
{
}

/// Law: a movement input is set only by an event of its own key: to 1 by a
/// press and to 0 by a release; every other event leaves it as it was. An
/// event marks the inputs as changed exactly when it is a press or release
/// of W, S, A or D.
pub proof fn lemma_inputs_follow_own_key(c: PlayerController, key: Key, action: Action)
    ensures
        ({
            let d = c.spec_handle_event(key, action);
            let set_to = |k: Key, old: i32|
                if key == k && action == Action::Press {
                    1i32
                } else if key == k && action == Action::Release {
                    0i32
                } else {
                    old
                };
            &&& d.forward == set_to(Key::W, c.forward)
            &&& d.backward == set_to(Key::S, c.backward)
            &&& d.left == set_to(Key::A, c.left)
            &&& d.right == set_to(Key::D, c.right)
            &&& d.dirty == (c.dirty || (action != Action::Repeat && (key == Key::W || key == Key::S
                || key == Key::A || key == Key::D)))
        }),
{
}
} // verus!
