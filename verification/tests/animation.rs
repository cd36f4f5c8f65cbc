use engine::animation_graph::{AnimationGraph, Comparison, Sign, State};
use engine::locomotion::create_animation_graph;
use engine::player::MovementInputs;

fn set_keys(g: &mut AnimationGraph, f: i32, b: i32, l: i32, r: i32) {
    MovementInputs { forward: f, backward: b, left: l, right: r }.apply_to(g);
}

#[test]
fn graph_inputs_add_set_get() {
    let mut g = AnimationGraph::new();
    assert_eq!(g.get_input("speed"), None);
    g.set_input("speed", 3);
    assert_eq!(g.get_input("speed"), None);
    g.add_input("speed", 1);
    assert_eq!(g.get_input("speed"), Some(1));
    g.set_input("speed", 7);
    assert_eq!(g.get_input("speed"), Some(7));
    g.add_input("speed", -2);
    assert_eq!(g.get_input("speed"), Some(-2));
    g.add_input("turn", 4);
    assert_eq!(g.get_input("speed"), Some(-2));
    assert_eq!(g.get_input("turn"), Some(4));
}

#[test]
fn graph_states_and_transitions() {
    let mut g = AnimationGraph::new();
    g.add_input("a", 0);
    g.add_input("b", 0);
    let mut s = State::new("rest");
    s.add_transition("up", vec![Comparison::new("a", "b", Sign::Positive)]);
    s.add_transition("down", vec![Comparison::new("a", "b", Sign::Negative)]);
    g.set_default_state(s);
    let mut up = State::new("up");
    up.add_transition("rest", vec![Comparison::new("a", "b", Sign::Zero)]);
    g.add_state(up);
    assert_eq!(g.current_state(), "rest");
    assert_eq!(g.previous_state(), None);
    assert_eq!(g.fire_transition(), None);
    g.set_input("b", 2);
    assert_eq!(g.fire_transition(), Some(1));
    assert_eq!(g.current_state(), "down");
    assert_eq!(g.previous_state().map(|s| s.as_str()), Some("rest"));
    assert_eq!(g.fire_transition(), None);
    g.end_transition();
    assert_eq!(g.previous_state(), None);
}

#[test]
fn graph_add_state_replaces() {
    let mut g = AnimationGraph::new();
    let mut s = State::new("s");
    s.add_transition("t", Vec::new());
    g.add_state(s);
    assert_eq!(g.get_state(&"s".to_string()).unwrap().transition_count(), 1);
    g.add_state(State::new("s"));
    assert_eq!(g.get_state(&"s".to_string()).unwrap().transition_count(), 0);
    assert!(g.get_state(&"t".to_string()).is_none());
}

#[test]
fn empty_condition_always_fires() {
    let mut g = AnimationGraph::new();
    let mut s = State::new("a");
    s.add_transition("b", Vec::new());
    g.set_default_state(s);
    assert_eq!(g.fire_transition(), Some(0));
    assert_eq!(g.current_state(), "b");
    assert_eq!(g.fire_transition(), None);
}

#[test]
fn locomotion_graph_layout() {
    let g = create_animation_graph();
    assert_eq!(g.current_state(), "idle");
    for name in ["forward", "backward", "left", "right"] {
        assert_eq!(g.get_input(name), Some(0));
    }
    let counts = [
        ("idle", 4, false),
        ("walk", 3, false),
        ("run", 0, false),
        ("back", 3, false),
        ("left", 3, false),
        ("right", 3, false),
        ("forward_left", 2, true),
        ("forward_right", 2, true),
        ("backward_left", 2, true),
        ("backward_right", 2, true),
    ];
    for (name, n, sync) in counts {
        let s = g.get_state(&name.to_string()).unwrap();
        assert_eq!(s.get_name(), name);
        assert_eq!(s.transition_count(), n);
        assert_eq!(s.is_synced(), sync);
    }
}

#[test]
fn locomotion_walks_and_returns() {
    let mut g = create_animation_graph();
    assert_eq!(g.fire_transition(), None);
    set_keys(&mut g, 1, 0, 0, 0);
    assert_eq!(g.fire_transition(), Some(0));
    assert_eq!(g.current_state(), "walk");
    set_keys(&mut g, 1, 0, 1, 0);
    assert_eq!(g.fire_transition(), Some(1));
    assert_eq!(g.current_state(), "forward_left");
    set_keys(&mut g, 0, 0, 1, 0);
    assert_eq!(g.fire_transition(), Some(1));
    assert_eq!(g.current_state(), "left");
    set_keys(&mut g, 0, 0, 0, 0);
    assert_eq!(g.fire_transition(), Some(0));
    assert_eq!(g.current_state(), "idle");
    set_keys(&mut g, 0, 1, 0, 1);
    assert_eq!(g.fire_transition(), None);
    assert_eq!(g.current_state(), "idle");
    set_keys(&mut g, 0, 1, 0, 0);
    assert_eq!(g.fire_transition(), Some(1));
    assert_eq!(g.current_state(), "back");
    set_keys(&mut g, 0, 1, 0, 1);
    assert_eq!(g.fire_transition(), Some(2));
    assert_eq!(g.current_state(), "backward_right");
}

#[test]
fn locomotion_target_matches_inputs() {
    let keys = [(0, 0, 0, 0), (1, 0, 0, 0), (0, 1, 0, 0), (0, 0, 1, 0), (0, 0, 0, 1), (1, 0, 1, 0), (1, 0, 0, 1), (0, 1, 1, 0), (0, 1, 0, 1), (1, 1, 1, 1)];
    let dir = |name: &str| -> (i32, i32) {
        match name {
            "idle" => (0, 0),
            "walk" => (1, 0),
            "back" => (-1, 0),
            "left" => (0, 1),
            "right" => (0, -1),
            "forward_left" => (1, 1),
            "forward_right" => (1, -1),
            "backward_left" => (-1, 1),
            "backward_right" => (-1, -1),
            _ => panic!("unexpected state {name}"),
        }
    };
    for start in keys {
        for step in keys {
            let mut g = create_animation_graph();
            set_keys(&mut g, start.0, start.1, start.2, start.3);
            g.fire_transition();
            set_keys(&mut g, step.0, step.1, step.2, step.3);
            if g.fire_transition().is_some() {
                let want = ((step.0 - step.1).signum(), (step.2 - step.3).signum());
                assert_eq!(dir(g.current_state()), want);
            }
        }
    }
}

#[test]
fn transitions_need_their_inputs() {
    let mut g = AnimationGraph::new();
    assert!(g.can_fire_transition());
    let mut idle = State::new("idle");
    idle.add_transition("run", vec![Comparison::new("speed", "zero", Sign::Positive)]);
    g.set_default_state(idle);
    g.add_state(State::new("run"));
    assert!(!g.can_fire_transition());
    g.add_input("speed", 0);
    assert!(!g.can_fire_transition());
    g.add_input("zero", 0);
    assert!(g.can_fire_transition());
    assert_eq!(g.fire_transition(), None);
    g.set_input("speed", 2);
    assert_eq!(g.fire_transition(), Some(0));
    assert_eq!(g.current_state(), "run");
    assert!(g.can_fire_transition());
    assert!(create_animation_graph().can_fire_transition());
}

#[test]
fn only_the_inputs_read_before_a_firing_transition_are_needed() {
    let mut g = AnimationGraph::new();
    g.add_input("a", 1);
    g.add_input("b", 0);
    let mut start = State::new("start");
    start.add_transition("first", vec![Comparison::new("a", "b", Sign::Positive)]);
    start.add_transition("second", vec![Comparison::new("missing", "b", Sign::Zero)]);
    g.set_default_state(start);
    g.add_state(State::new("first"));
    g.add_state(State::new("second"));
    // The first transition fires, so the second one's missing input is never read.
    assert!(g.can_fire_transition());
    assert_eq!(g.fire_transition(), Some(0));
    assert_eq!(g.current_state(), "first");

    let mut h = AnimationGraph::new();
    h.add_input("a", 0);
    h.add_input("b", 0);
    let mut start = State::new("start");
    // The first comparison fails, so the second one's missing input is never read.
    start.add_transition(
        "next",
        vec![Comparison::new("a", "b", Sign::Positive), Comparison::new("missing", "b", Sign::Zero)],
    );
    start.add_transition("missing_first", vec![Comparison::new("missing", "a", Sign::Zero)]);
    h.set_default_state(start);
    assert!(!h.can_fire_transition());
    h.set_input("a", 2);
    assert!(!h.can_fire_transition());
}

#[test]
fn locomotion_states_play_their_clips() {
    let g = create_animation_graph();
    let clips = |name: &str| -> Vec<(String, String)> {
        g.get_state(&name.to_string())
            .unwrap()
            .get_animations()
            .iter()
            .map(|c| (c.name.clone(), c.file.clone()))
            .collect()
    };
    let c = |n: &str, f: &str| (n.to_string(), f.to_string());
    assert_eq!(clips("idle"), vec![c("idle", "Idle.fbx")]);
    assert_eq!(clips("run"), vec![c("run", "Run.fbx")]);
    assert_eq!(clips("back"), vec![c("back", "Walk_Backwards.fbx")]);
    assert_eq!(clips("forward_left"), vec![c("walk", "Walk.fbx"), c("left", "Walk_Left.fbx")]);
    assert_eq!(clips("backward_right"), vec![c("back", "Walk_Backwards.fbx"), c("right", "Walk_Right.fbx")]);
    assert_eq!(g.get_states().len(), 10);
    for state in g.get_states() {
        let n = state.get_animations().len();
        assert_eq!(n, if state.is_synced() { 2 } else { 1 });
    }
}
