use vstd::prelude::*;

use crate::animation_graph::{
    condition_holds,
    first_firing,
    sign_of,
    AnimationGraph,
    Comparison,
    Sign,
    State,
};

verus! {

broadcast use vstd::string::group_string_axioms;

/// The walking direction a locomotion state stands for, as the signs of
/// `forward - backward` and `left - right`. The states form a 3 by 3 grid:
///
/// ```text
/// forward_left  | walk | forward_right
/// left          | idle | right
/// backward_left | back | backward_right
/// ```
pub open spec fn direction(name: Seq<char>) -> Option<(Sign, Sign)> {
    if name == "idle"@ {
        Some((Sign::Zero, Sign::Zero))
    } else if name == "walk"@ {
        Some((Sign::Positive, Sign::Zero))
    } else if name == "back"@ {
        Some((Sign::Negative, Sign::Zero))
    } else if name == "left"@ {
        Some((Sign::Zero, Sign::Positive))
    } else if name == "right"@ {
        Some((Sign::Zero, Sign::Negative))
    } else if name == "forward_left"@ {
        Some((Sign::Positive, Sign::Positive))
    } else if name == "forward_right"@ {
        Some((Sign::Positive, Sign::Negative))
    } else if name == "backward_left"@ {
        Some((Sign::Negative, Sign::Positive))
    } else if name == "backward_right"@ {
        Some((Sign::Negative, Sign::Negative))
    } else {
        None
    }
}

/// The condition of a move to a state with direction `d`: the movement
/// inputs point in that direction.
pub open spec fn moves_towards(condition: Seq<Comparison>, d: (Sign, Sign)) -> bool {
    &&& condition.len() == 2
    &&& condition[0].left@ == "forward"@ && condition[0].right@ == "backward"@
    &&& condition[0].sign == d.0
    &&& condition[1].left@ == "left"@ && condition[1].right@ == "right"@
    &&& condition[1].sign == d.1
}

/// Every transition of every state leads to a grid state, under the
/// condition that the inputs point in that state's direction.
pub open spec fn is_locomotion_graph(g: AnimationGraph) -> bool {
    forall|name: Seq<char>, k: int|
        #![trigger g.states_view()[name].transitions()[k]]
        g.states_view().contains_key(name) && 0 <= k < g.states_view()[name].transitions().len()
            ==> {
            let t = g.states_view()[name].transitions()[k];
            &&& direction(t.to_state@) is Some
            &&& moves_towards(t.condition@, direction(t.to_state@)->0)
        }
}

/// The targets of the transitions of each state, in the order they are
/// tried.
pub open spec fn targets(name: Seq<char>) -> Seq<Seq<char>> {
    if name == "idle"@ {
        seq!["walk"@, "back"@, "left"@, "right"@]
    } else if name == "walk"@ {
        seq!["idle"@, "forward_left"@, "forward_right"@]
    } else if name == "back"@ {
        seq!["idle"@, "backward_left"@, "backward_right"@]
    } else if name == "left"@ {
        seq!["idle"@, "forward_left"@, "backward_left"@]
    } else if name == "right"@ {
        seq!["idle"@, "forward_right"@, "backward_right"@]
    } else if name == "forward_left"@ {
        seq!["walk"@, "left"@]
    } else if name == "forward_right"@ {
        seq!["walk"@, "right"@]
    } else if name == "backward_left"@ {
        seq!["back"@, "left"@]
    } else if name == "backward_right"@ {
        seq!["back"@, "right"@]
    } else {
        seq![]
    }
}

/// The clip of a walking direction, as `(name, file)`.
pub open spec fn clip(name: Seq<char>) -> (Seq<char>, Seq<char>) {
    if name == "idle"@ {
        ("idle"@, "Idle.fbx"@)
    } else if name == "walk"@ {
        ("walk"@, "Walk.fbx"@)
    } else if name == "run"@ {
        ("run"@, "Run.fbx"@)
    } else if name == "back"@ {
        ("back"@, "Walk_Backwards.fbx"@)
    } else if name == "left"@ {
        ("left"@, "Walk_Left.fbx"@)
    } else {
        ("right"@, "Walk_Right.fbx"@)
    }
}

/// The clips each state plays: its own clip for a state on an axis, and the
/// clips of its two neighbours on the axes for a diagonal state.
pub open spec fn clips_of(name: Seq<char>) -> Seq<(Seq<char>, Seq<char>)> {
    if name == "forward_left"@ {
        seq![clip("walk"@), clip("left"@)]
    } else if name == "forward_right"@ {
        seq![clip("walk"@), clip("right"@)]
    } else if name == "backward_left"@ {
        seq![clip("back"@), clip("left"@)]
    } else if name == "backward_right"@ {
        seq![clip("back"@), clip("right"@)]
    } else {
        seq![clip(name)]
    }
}

/// The state names of the locomotion graph.
pub open spec fn state_names() -> Set<Seq<char>> {
    set![
        "idle"@,
        "walk"@,
        "run"@,
        "back"@,
        "left"@,
        "right"@,
        "forward_left"@,
        "forward_right"@,
        "backward_left"@,
        "backward_right"@,
    ]
}

/// The transitions of `s` go, in order, to the states `targets`, each under
/// the condition that the inputs point in its direction.
pub open spec fn has_moves(s: State, targets: Seq<Seq<char>>) -> bool {
    &&& s.transitions().len() == targets.len()
    &&& forall|k: int|
        #![trigger s.transitions()[k]]
        0 <= k < targets.len() ==> {
            &&& s.transitions()[k].to_state@ == targets[k]
            &&& direction(targets[k]) is Some
            &&& moves_towards(s.transitions()[k].condition@, direction(targets[k])->0)
        }
}

/// Adds a move to `to_state` under the condition that the inputs point in
/// the direction `(forward_backward, left_right)`.
fn add_move(state: &mut State, to_state: &str, forward_backward: Sign, left_right: Sign)
    ensures
        final(state).name() == old(state).name(),
        final(state).syncs() == old(state).syncs(),
        final(state).clips() == old(state).clips(),
        final(state).transitions().drop_last() == old(state).transitions(),
        final(state).transitions().len() == old(state).transitions().len() + 1,
        final(state).transitions().last().to_state@ == to_state@,
        moves_towards(
            final(state).transitions().last().condition@,
            (forward_backward, left_right),
        ),
{
    let mut condition: Vec<Comparison> = Vec::new();
    condition.push(Comparison::new("forward", "backward", forward_backward));
    condition.push(Comparison::new("left", "right", left_right));
    state.add_transition(to_state, condition);
}

proof fn lemma_names_distinct()
    ensures
        "idle"@ != "walk"@ && "idle"@ != "back"@ && "idle"@ != "left"@ && "idle"@ != "right"@,
        "idle"@ != "run"@ && "walk"@ != "run"@ && "back"@ != "run"@ && "left"@ != "run"@,
        "right"@ != "run"@ && "forward_left"@ != "run"@ && "forward_right"@ != "run"@,
        "backward_left"@ != "run"@ && "backward_right"@ != "run"@,
        "idle"@ != "forward_left"@ && "idle"@ != "forward_right"@,
        "idle"@ != "backward_left"@ && "idle"@ != "backward_right"@,
        "walk"@ != "back"@ && "walk"@ != "left"@ && "walk"@ != "right"@,
        "walk"@ != "forward_left"@ && "walk"@ != "forward_right"@,
        "walk"@ != "backward_left"@ && "walk"@ != "backward_right"@,
        "back"@ != "left"@ && "back"@ != "right"@ && "back"@ != "forward_left"@,
        "back"@ != "forward_right"@ && "back"@ != "backward_left"@ && "back"@ != "backward_right"@,
        "left"@ != "right"@ && "left"@ != "forward_left"@ && "left"@ != "forward_right"@,
        "left"@ != "backward_left"@ && "left"@ != "backward_right"@,
        "right"@ != "forward_left"@ && "right"@ != "forward_right"@,
        "right"@ != "backward_left"@ && "right"@ != "backward_right"@,
        "forward_left"@ != "forward_right"@ && "forward_left"@ != "backward_left"@,
        "forward_left"@ != "backward_right"@ && "forward_right"@ != "backward_left"@,
        "forward_right"@ != "backward_right"@ && "backward_left"@ != "backward_right"@,
{
    reveal_strlit("idle");
    reveal_strlit("walk");
    reveal_strlit("run");
    reveal_strlit("back");
    reveal_strlit("left");
    reveal_strlit("right");
    reveal_strlit("forward_left");
    reveal_strlit("forward_right");
    reveal_strlit("backward_left");
    reveal_strlit("backward_right");
    assert("idle"@[0] != "walk"@[0] && "idle"@[0] != "back"@[0] && "idle"@[0] != "left"@[0]);
    assert("walk"@[0] != "back"@[0] && "walk"@[0] != "left"@[0] && "back"@[0] != "left"@[0]);
    assert("forward_right"@[0] != "backward_left"@[0]);
    assert("run"@.len() == 3 && "right"@.len() == 5 && "forward_left"@.len() == 12);
    assert("forward_right"@.len() == 13 && "backward_left"@.len() == 13);
    assert("backward_right"@.len() == 14);
}

/// The animation graph of the player character: the inputs `forward`,
/// `backward`, `left` and `right`, all 0 at first, and the locomotion
/// states. `idle` is the default and current state; each state moves to a
/// grid neighbour whose direction the inputs point in (see `targets`), each
/// state plays the clips of `clips_of`, and the four diagonal states play
/// their two clips in step. The state `run` has no transitions.
pub fn create_animation_graph() -> (graph: AnimationGraph)
    ensures
        graph.wf(),
        is_locomotion_graph(graph),
        graph.inputs_view() == map!["forward"@ => 0i32, "backward"@ => 0i32, "left"@ => 0i32, "right"@ => 0i32],
        graph.states_view().dom() == state_names(),
        forall|name: Seq<char>|
            #[trigger] state_names().contains(name) ==> {
                let s = graph.states_view()[name];
                &&& s.name() == name
                &&& has_moves(s, targets(name))
                &&& s.clips() == clips_of(name)
                &&& s.syncs() == (name == "forward_left"@ || name == "forward_right"@
                    || name == "backward_left"@ || name == "backward_right"@)
            },
        graph.current() == "idle"@,
        graph.default() == "idle"@,
        graph.previous() is None,
{
    proof {
        lemma_names_distinct();
    }
    let mut graph = AnimationGraph::new();
    graph.add_input("forward", 0);
    graph.add_input("backward", 0);
    graph.add_input("left", 0);
    graph.add_input("right", 0);

    let mut idle = State::new("idle");
    idle.add_animation("idle", "Idle.fbx");
    add_move(&mut idle, "walk", Sign::Positive, Sign::Zero);
    add_move(&mut idle, "back", Sign::Negative, Sign::Zero);
    add_move(&mut idle, "left", Sign::Zero, Sign::Positive);
    add_move(&mut idle, "right", Sign::Zero, Sign::Negative);
    assert(has_moves(idle, targets("idle"@)));
    let ghost s_idle = idle;
    graph.set_default_state(idle);

    let mut walk = State::new("walk");
    walk.add_animation("walk", "Walk.fbx");
    add_move(&mut walk, "idle", Sign::Zero, Sign::Zero);
    add_move(&mut walk, "forward_left", Sign::Positive, Sign::Positive);
    add_move(&mut walk, "forward_right", Sign::Positive, Sign::Negative);
    assert(has_moves(walk, targets("walk"@)));
    let ghost s_walk = walk;
    graph.add_state(walk);

    let mut run = State::new("run");
    run.add_animation("run", "Run.fbx");
    assert(has_moves(run, targets("run"@)));
    let ghost s_run = run;
    graph.add_state(run);

    let mut back = State::new("back");
    back.add_animation("back", "Walk_Backwards.fbx");
    add_move(&mut back, "idle", Sign::Zero, Sign::Zero);
    add_move(&mut back, "backward_left", Sign::Negative, Sign::Positive);
    add_move(&mut back, "backward_right", Sign::Negative, Sign::Negative);
    assert(has_moves(back, targets("back"@)));
    let ghost s_back = back;
    graph.add_state(back);

    let mut left = State::new("left");
    left.add_animation("left", "Walk_Left.fbx");
    add_move(&mut left, "idle", Sign::Zero, Sign::Zero);
    add_move(&mut left, "forward_left", Sign::Positive, Sign::Positive);
    add_move(&mut left, "backward_left", Sign::Negative, Sign::Positive);
    assert(has_moves(left, targets("left"@)));
    let ghost s_left = left;
    graph.add_state(left);

    let mut right = State::new("right");
    right.add_animation("right", "Walk_Right.fbx");
    add_move(&mut right, "idle", Sign::Zero, Sign::Zero);
    add_move(&mut right, "forward_right", Sign::Positive, Sign::Negative);
    add_move(&mut right, "backward_right", Sign::Negative, Sign::Negative);
    assert(has_moves(right, targets("right"@)));
    let ghost s_right = right;
    graph.add_state(right);

    let mut forward_left = State::new("forward_left");
    forward_left.add_animation("walk", "Walk.fbx");
    forward_left.add_animation("left", "Walk_Left.fbx");
    add_move(&mut forward_left, "walk", Sign::Positive, Sign::Zero);
    add_move(&mut forward_left, "left", Sign::Zero, Sign::Positive);
    forward_left.sync_animations(true);
    assert(has_moves(forward_left, targets("forward_left"@)));
    let ghost s_forward_left = forward_left;
    graph.add_state(forward_left);

    let mut forward_right = State::new("forward_right");
    forward_right.add_animation("walk", "Walk.fbx");
    forward_right.add_animation("right", "Walk_Right.fbx");
    add_move(&mut forward_right, "walk", Sign::Positive, Sign::Zero);
    add_move(&mut forward_right, "right", Sign::Zero, Sign::Negative);
    forward_right.sync_animations(true);
    assert(has_moves(forward_right, targets("forward_right"@)));
    let ghost s_forward_right = forward_right;
    graph.add_state(forward_right);

    let mut backward_left = State::new("backward_left");
    backward_left.add_animation("back", "Walk_Backwards.fbx");
    backward_left.add_animation("left", "Walk_Left.fbx");
    add_move(&mut backward_left, "back", Sign::Negative, Sign::Zero);
    add_move(&mut backward_left, "left", Sign::Zero, Sign::Positive);
    backward_left.sync_animations(true);
    assert(has_moves(backward_left, targets("backward_left"@)));
    let ghost s_backward_left = backward_left;
    graph.add_state(backward_left);

    let mut backward_right = State::new("backward_right");
    backward_right.add_animation("back", "Walk_Backwards.fbx");
    backward_right.add_animation("right", "Walk_Right.fbx");
    add_move(&mut backward_right, "back", Sign::Negative, Sign::Zero);
    add_move(&mut backward_right, "right", Sign::Zero, Sign::Negative);
    backward_right.sync_animations(true);
    assert(has_moves(backward_right, targets("backward_right"@)));
    let ghost s_backward_right = backward_right;
    graph.add_state(backward_right);

    proof {
        let m = graph.states_view();
        assert(m == Map::<Seq<char>, State>::empty().insert("idle"@, s_idle).insert(
            "walk"@,
            s_walk,
        ).insert("run"@, s_run).insert("back"@, s_back).insert("left"@, s_left).insert(
            "right"@,
            s_right,
        ).insert("forward_left"@, s_forward_left).insert("forward_right"@, s_forward_right).insert(
            "backward_left"@,
            s_backward_left,
        ).insert("backward_right"@, s_backward_right));
        assert(m.dom() =~= state_names());
        assert(graph.inputs_view() =~= map![
            "forward"@ => 0i32,
            "backward"@ => 0i32,
            "left"@ => 0i32,
            "right"@ => 0i32,
        ]);
        assert forall|name: Seq<char>| #[trigger] state_names().contains(name) implies {
            let s = m[name];
            &&& s.name() == name
            &&& has_moves(s, targets(name))
            &&& s.clips() == clips_of(name)
            &&& s.syncs() == (name == "forward_left"@ || name == "forward_right"@ || name
                == "backward_left"@ || name == "backward_right"@)
        } by {}
        assert forall|name: Seq<char>, k: int|
            m.contains_key(name) && 0 <= k < m[name].transitions().len() implies {
            let t = #[trigger] m[name].transitions()[k];
            &&& direction(t.to_state@) is Some
            &&& moves_towards(t.condition@, direction(t.to_state@)->0)
        } by {
            assert(state_names().contains(name));
            assert(has_moves(m[name], targets(name)));
        }
    }
    graph
}

/// Law: in a locomotion graph, a transition that fires leads to the grid
/// state whose direction is that of the movement inputs: its
/// `forward - backward` and `left - right` signs are those of the inputs.
pub proof fn lemma_fired_matches_inputs(g: AnimationGraph, k: int)
    requires
        is_locomotion_graph(g),
        first_firing(g.inputs_view(), g.current_transitions(), k),
    ensures
        direction(g.current_transitions()[k].to_state@) == Some(
            (
                sign_of(g.inputs_view()["forward"@] - g.inputs_view()["backward"@]),
                sign_of(g.inputs_view()["left"@] - g.inputs_view()["right"@]),
            ),
        ),
{
    let name = g.current();
    assert(g.states_view().contains_key(name));
    let t = g.states_view()[name].transitions()[k];
    assert(direction(t.to_state@) is Some);
    let c = t.condition@;
    assert(condition_holds(g.inputs_view(), c));
    assert(crate::animation_graph::comparison_holds(g.inputs_view(), c[0]));
    assert(crate::animation_graph::comparison_holds(g.inputs_view(), c[1]));
}

/// The step a sign makes along its axis of the grid.
pub open spec fn axis(s: Sign) -> int {
    match s {
        Sign::Negative => -1,
        Sign::Zero => 0,
        Sign::Positive => 1,
    }
}

/// Two walking directions are neighbours in the grid of states: they differ
/// by one step along exactly one axis.
pub open spec fn grid_neighbours(d: (Sign, Sign), e: (Sign, Sign)) -> bool {
    let a = axis(d.0) - axis(e.0);
    let b = axis(d.1) - axis(e.1);
    (a == 0 && (b == 1 || b == -1)) || (b == 0 && (a == 1 || a == -1))
}

/// Law: every grid state moves to each of its grid neighbours and to
/// nothing else, each neighbour by exactly one transition: the direction
/// `d` is a neighbour of the state's direction exactly when some
/// transition leads to the state with direction `d`, and no two
/// transitions lead to the same state.
pub proof fn lemma_moves_reach_neighbours(name: Seq<char>, d: (Sign, Sign))
    requires
        direction(name) is Some,
    ensures
        grid_neighbours(direction(name)->0, d) <==> exists|k: int|
            0 <= k < targets(name).len() && direction(#[trigger] targets(name)[k]) == Some(d),
        forall|i: int, j: int|
            0 <= i < j < targets(name).len() ==> targets(name)[i] != targets(name)[j],
        forall|k: int| 0 <= k < targets(name).len() ==> direction(#[trigger] targets(name)[k]) is Some,
{
    lemma_names_distinct();
    let t = targets(name);
    if grid_neighbours(direction(name)->0, d) {
        assert(exists|k: int| 0 <= k < t.len() && direction(#[trigger] t[k]) == Some(d)) by {
            if name == "idle"@ {
                assert(direction(t[0]) == Some((Sign::Positive, Sign::Zero)));
                assert(direction(t[1]) == Some((Sign::Negative, Sign::Zero)));
                assert(direction(t[2]) == Some((Sign::Zero, Sign::Positive)));
                assert(direction(t[3]) == Some((Sign::Zero, Sign::Negative)));
            } else if name == "walk"@ {
                assert(direction(t[0]) == Some((Sign::Zero, Sign::Zero)));
                assert(direction(t[1]) == Some((Sign::Positive, Sign::Positive)));
                assert(direction(t[2]) == Some((Sign::Positive, Sign::Negative)));
            } else if name == "back"@ {
                assert(direction(t[0]) == Some((Sign::Zero, Sign::Zero)));
                assert(direction(t[1]) == Some((Sign::Negative, Sign::Positive)));
                assert(direction(t[2]) == Some((Sign::Negative, Sign::Negative)));
            } else if name == "left"@ {
                assert(direction(t[0]) == Some((Sign::Zero, Sign::Zero)));
                assert(direction(t[1]) == Some((Sign::Positive, Sign::Positive)));
                assert(direction(t[2]) == Some((Sign::Negative, Sign::Positive)));
            } else if name == "right"@ {
                assert(direction(t[0]) == Some((Sign::Zero, Sign::Zero)));
                assert(direction(t[1]) == Some((Sign::Positive, Sign::Negative)));
                assert(direction(t[2]) == Some((Sign::Negative, Sign::Negative)));
            } else if name == "forward_left"@ {
                assert(direction(t[0]) == Some((Sign::Positive, Sign::Zero)));
                assert(direction(t[1]) == Some((Sign::Zero, Sign::Positive)));
            } else if name == "forward_right"@ {
                assert(direction(t[0]) == Some((Sign::Positive, Sign::Zero)));
                assert(direction(t[1]) == Some((Sign::Zero, Sign::Negative)));
            } else if name == "backward_left"@ {
                assert(direction(t[0]) == Some((Sign::Negative, Sign::Zero)));
                assert(direction(t[1]) == Some((Sign::Zero, Sign::Positive)));
            } else {
                assert(direction(t[0]) == Some((Sign::Negative, Sign::Zero)));
                assert(direction(t[1]) == Some((Sign::Zero, Sign::Negative)));
            }
        }
    }
}

/// Different grid states walk in different directions.
proof fn lemma_direction_injective(a: Seq<char>, b: Seq<char>)
    requires
        direction(a) is Some,
        direction(a) == direction(b),
    ensures
        a == b,
{
}

/// Law: in the locomotion graph, when the current state is a grid state and
/// the movement inputs point in the direction of one of its grid
/// neighbours, a transition fires, and it leads to that neighbour.
pub proof fn lemma_neighbour_move_fires(g: AnimationGraph)
    requires
        forall|name: Seq<char>|
            #[trigger] state_names().contains(name) ==> g.states_view().contains_key(name)
                && has_moves(g.states_view()[name], targets(name)),
        direction(g.current()) is Some,
        g.inputs_view().contains_key("forward"@),
        g.inputs_view().contains_key("backward"@),
        g.inputs_view().contains_key("left"@),
        g.inputs_view().contains_key("right"@),
        grid_neighbours(
            direction(g.current())->0,
            (
                sign_of(g.inputs_view()["forward"@] - g.inputs_view()["backward"@]),
                sign_of(g.inputs_view()["left"@] - g.inputs_view()["right"@]),
            ),
        ),
    ensures
        exists|k: int|
            first_firing(g.inputs_view(), g.current_transitions(), k) && direction(
                #[trigger] g.current_transitions()[k].to_state@,
            ) == Some(
                (
                    sign_of(g.inputs_view()["forward"@] - g.inputs_view()["backward"@]),
                    sign_of(g.inputs_view()["left"@] - g.inputs_view()["right"@]),
                ),
            ),
{
    let inputs = g.inputs_view();
    let d = (
        sign_of(inputs["forward"@] - inputs["backward"@]),
        sign_of(inputs["left"@] - inputs["right"@]),
    );
    let name = g.current();
    lemma_names_distinct();
    assert(state_names().contains(name));
    let s = g.states_view()[name];
    let ts = g.current_transitions();
    assert(ts == s.transitions());
    let t = targets(name);
    lemma_moves_reach_neighbours(name, d);
    let k = choose|k: int| 0 <= k < t.len() && direction(#[trigger] t[k]) == Some(d);
    assert(ts[k].to_state@ == t[k]);
    let c = ts[k].condition@;
    assert(moves_towards(c, d));
    assert(condition_holds(inputs, c)) by {
        assert forall|m: int| 0 <= m < c.len() implies crate::animation_graph::comparison_holds(
            inputs,
            #[trigger] c[m],
        ) by {}
    }
    assert forall|j: int| 0 <= j < k implies !condition_holds(inputs, #[trigger] ts[j].condition@) by {
        assert(ts[j].to_state@ == t[j]);
        let cj = ts[j].condition@;
        assert(moves_towards(cj, direction(t[j])->0));
        if condition_holds(inputs, cj) {
            assert(crate::animation_graph::comparison_holds(inputs, cj[0]));
            assert(crate::animation_graph::comparison_holds(inputs, cj[1]));
            assert(direction(t[j]) == Some(d));
            lemma_direction_injective(t[j], t[k]);
        }
    }
    assert(first_firing(inputs, ts, k));
}

} // verus!
