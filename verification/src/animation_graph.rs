use vstd::prelude::*;

use crate::keyed::{lemma_keyed_map, lemma_keyed_map_push, lemma_keyed_map_update, keyed_map, unique_keys};

verus! {

broadcast use vstd::string::group_string_axioms;

/// The sign of a difference of two inputs.
#[derive(Debug, Clone, Copy, PartialEq, Eq, Structural)]
pub enum Sign {
    Negative,
    Zero,
    Positive,
}

pub open spec fn sign_of(v: int) -> Sign {
    if v < 0 {
        Sign::Negative
    } else if v == 0 {
        Sign::Zero
    } else {
        Sign::Positive
    }
}

/// The test `inputs[left] - inputs[right]` has the sign `sign`.
#[derive(Debug, Clone)]
pub struct Comparison {
    pub left: String,
    pub right: String,
    pub sign: Sign,
}

/// A named input of the graph, such as how far a movement key is held.
#[derive(Debug, Clone)]
pub struct Input {
    pub name: String,
    pub value: i32,
}

/// A move to `to_state`, taken when every comparison of `condition` holds.
#[derive(Debug, Clone)]
pub struct Transition {
    pub to_state: String,
    pub condition: Vec<Comparison>,
}

/// An animation clip that a state plays: the clip's name and the file it is
/// read from.
#[derive(Debug, Clone)]
pub struct Clip {
    pub name: String,
    pub file: String,
}

/// A state of the graph: its name, the clips it plays, its outgoing
/// transitions in the order they are tried, and whether its clips play in
/// step.
#[derive(Debug, Clone)]
pub struct State {
    name: String,
    animations: Vec<Clip>,
    transitions: Vec<Transition>,
    sync_animations: bool,
}

/// The clips as `(name, file)` pairs.
pub open spec fn clip_names(clips: Seq<Clip>) -> Seq<(Seq<char>, Seq<char>)> {
    clips.map_values(|c: Clip| (c.name@, c.file@))
}

/// The state machine that picks which animations of a model play: named
/// integer inputs, states keyed by name, the current state, and the state
/// being blended out after a transition.
#[derive(Debug)]
pub struct AnimationGraph {
    inputs: Vec<Input>,
    default_state: String,
    states: Vec<State>,
    current_state: String,
    previous_state: Option<String>,
}

pub open spec fn comparison_holds(inputs: Map<Seq<char>, i32>, c: Comparison) -> bool {
    sign_of(inputs[c.left@] - inputs[c.right@]) == c.sign
}

pub open spec fn condition_holds(inputs: Map<Seq<char>, i32>, condition: Seq<Comparison>) -> bool {
    forall|k: int| 0 <= k < condition.len() ==> comparison_holds(inputs, #[trigger] condition[k])
}

/// Every input that evaluating the condition reads exists. The comparisons
/// are evaluated in order, and evaluation stops at the first that fails, so
/// a comparison after a failing one is never read.
pub open spec fn condition_resolvable(inputs: Map<Seq<char>, i32>, condition: Seq<Comparison>) -> bool {
    forall|k: int|
        0 <= k < condition.len() && (forall|j: int|
            0 <= j < k ==> comparison_holds(inputs, #[trigger] condition[j])) ==> comparison_resolvable(
            inputs,
            #[trigger] condition[k],
        )
}

/// Both inputs that the comparison reads exist.
pub open spec fn comparison_resolvable(inputs: Map<Seq<char>, i32>, c: Comparison) -> bool {
    inputs.contains_key(c.left@) && inputs.contains_key(c.right@)
}

/// Transition `k` is the first of `ts` whose condition holds.
pub open spec fn first_firing(inputs: Map<Seq<char>, i32>, ts: Seq<Transition>, k: int) -> bool {
    &&& 0 <= k < ts.len()
    &&& condition_holds(inputs, ts[k].condition@)
    &&& forall|j: int| 0 <= j < k ==> !condition_holds(inputs, #[trigger] ts[j].condition@)
}

pub open spec fn input_entries(s: Seq<Input>) -> Seq<(Seq<char>, i32)> {
    s.map_values(|i: Input| (i.name@, i.value))
}

pub open spec fn state_entries(s: Seq<State>) -> Seq<(Seq<char>, State)> {
    s.map_values(|st: State| (st.name(), st))
}

impl State {
    pub closed spec fn name(self) -> Seq<char> {
        self.name@
    }

    pub closed spec fn transitions(self) -> Seq<Transition> {
        self.transitions@
    }

    pub closed spec fn syncs(self) -> bool {
        self.sync_animations
    }

    /// The clips the state plays, as `(name, file)` pairs, in the order
    /// they were added.
    pub closed spec fn clips(self) -> Seq<(Seq<char>, Seq<char>)> {
        clip_names(self.animations@)
    }

    /// A state with no clips and no transitions whose clips play
    /// independently.
    pub fn new(name: &str) -> (state: State)
        ensures
            state.name() == name@,
            state.clips() == Seq::<(Seq<char>, Seq<char>)>::empty(),
            state.transitions() == Seq::<Transition>::empty(),
            !state.syncs(),
    {
        let state = State {
            name: name.to_string(),
            animations: Vec::new(),
            transitions: Vec::new(),
            sync_animations: false,
        };
        assert(clip_names(state.animations@) =~= Seq::<(Seq<char>, Seq<char>)>::empty());
        state
    }

    /// Adds the clip `name`, read from `file`, after the clips added before.
    pub fn add_animation(&mut self, name: &str, file: &str)
        ensures
            final(self).name() == old(self).name(),
            final(self).syncs() == old(self).syncs(),
            final(self).transitions() == old(self).transitions(),
            final(self).clips() == old(self).clips().push((name@, file@)),
    {
        self.animations.push(Clip { name: name.to_string(), file: file.to_string() });
        assert(clip_names(self.animations@) =~= clip_names(old(self).animations@).push(
            (name@, file@),
        ));
    }

    /// The clips the state plays.
    pub fn get_animations(&self) -> (clips: &Vec<Clip>)
        ensures
            clip_names(clips@) == self.clips(),
    {
        &self.animations
    }

    /// Adds a transition to `to_state`, tried after the ones added before.
    pub fn add_transition(&mut self, to_state: &str, condition: Vec<Comparison>)
        ensures
            final(self).name() == old(self).name(),
            final(self).syncs() == old(self).syncs(),
            final(self).clips() == old(self).clips(),
            final(self).transitions().len() == old(self).transitions().len() + 1,
            final(self).transitions().drop_last() == old(self).transitions(),
            final(self).transitions().last().to_state@ == to_state@,
            final(self).transitions().last().condition@ == condition@,
    {
        self.transitions.push(Transition { to_state: to_state.to_string(), condition });
        assert(self.transitions@.drop_last() =~= old(self).transitions@);
    }

    /// Sets whether the state's animations play in step.
    pub fn sync_animations(&mut self, sync: bool)
        ensures
            final(self).name() == old(self).name(),
            final(self).transitions() == old(self).transitions(),
            final(self).clips() == old(self).clips(),
            final(self).syncs() == sync,
    {
        self.sync_animations = sync;
    }

    pub fn get_name(&self) -> (name: &String)
        ensures
            name@ == self.name(),
    {
        &self.name
    }

    pub fn is_synced(&self) -> (sync: bool)
        ensures
            sync == self.syncs(),
    {
        self.sync_animations
    }

    /// The number of transitions of the state.
    pub fn transition_count(&self) -> (n: usize)
        ensures
            n == self.transitions().len(),
    {
        self.transitions.len()
    }
}

impl Comparison {
    pub fn new(left: &str, right: &str, sign: Sign) -> (c: Comparison)
        ensures
            c.left@ == left@,
            c.right@ == right@,
            c.sign == sign,
    {
        Comparison { left: left.to_string(), right: right.to_string(), sign }
    }
}

impl AnimationGraph {
    /// The inputs, by name.
    pub closed spec fn inputs_view(self) -> Map<Seq<char>, i32> {
        keyed_map(input_entries(self.inputs@))
    }

    /// The states, by name.
    pub closed spec fn states_view(self) -> Map<Seq<char>, State> {
        keyed_map(state_entries(self.states@))
    }

    pub closed spec fn current(self) -> Seq<char> {
        self.current_state@
    }

    pub closed spec fn previous(self) -> Option<Seq<char>> {
        match self.previous_state {
            Some(p) => Some(p@),
            None => None,
        }
    }

    pub closed spec fn default(self) -> Seq<char> {
        self.default_state@
    }

    pub closed spec fn wf(self) -> bool {
        &&& unique_keys(input_entries(self.inputs@))
        &&& unique_keys(state_entries(self.states@))
    }

    /// The transitions of the current state; none when no state has the
    /// current name.
    pub open spec fn current_transitions(self) -> Seq<Transition> {
        if self.states_view().contains_key(self.current()) {
            self.states_view()[self.current()].transitions()
        } else {
            Seq::empty()
        }
    }

    /// Every input read while trying the transitions of the current state
    /// exists. The transitions are tried in order, and trying stops at the
    /// first whose condition holds, so the conditions after it are not read.
    pub open spec fn can_fire(self) -> bool {
        forall|k: int|
            0 <= k < self.current_transitions().len() && (forall|j: int|
                0 <= j < k ==> !condition_holds(
                    self.inputs_view(),
                    #[trigger] self.current_transitions()[j].condition@,
                )) ==> condition_resolvable(
                self.inputs_view(),
                #[trigger] self.current_transitions()[k].condition@,
            )
    }

    /// A graph with no inputs and no states.
    pub fn new() -> (graph: AnimationGraph)
        ensures
            graph.wf(),
            graph.inputs_view() == Map::<Seq<char>, i32>::empty(),
            graph.states_view() == Map::<Seq<char>, State>::empty(),
            graph.current() == Seq::<char>::empty(),
            graph.previous() is None,
            graph.default() == Seq::<char>::empty(),
    {
        let graph = AnimationGraph {
            inputs: Vec::new(),
            default_state: String::new(),
            states: Vec::new(),
            current_state: String::new(),
            previous_state: None,
        };
        assert(input_entries(graph.inputs@) =~= Seq::empty());
        assert(state_entries(graph.states@) =~= Seq::empty());
        assert(graph.inputs_view() == Map::<Seq<char>, i32>::empty());
        assert(graph.states_view() == Map::<Seq<char>, State>::empty());
        graph
    }

    /// The index of the input called `name`.
    fn find_input(&self, name: &String) -> (found: Option<usize>)
        requires
            self.wf(),
        ensures
            match found {
                Some(i) => i < self.inputs@.len() && self.inputs@[i as int].name@ == name@
                    && self.inputs_view().contains_key(name@) && self.inputs_view()[name@]
                    == self.inputs@[i as int].value,
                None => !self.inputs_view().contains_key(name@),
            },
    {
        proof {
            lemma_keyed_map(input_entries(self.inputs@));
        }
        let mut i: usize = 0;
        while i < self.inputs.len()
            invariant
                self.wf(),
                i <= self.inputs@.len(),
                forall|j: int| 0 <= j < i ==> self.inputs@[j].name@ != name@,
            decreases self.inputs@.len() - i,
        {
            if self.inputs[i].name == *name {
                proof {
                    let e = input_entries(self.inputs@);
                    lemma_keyed_map(e);
                    assert(e[i as int] == (self.inputs@[i as int].name@, self.inputs@[i as int].value));
                    assert(keyed_map(e)[e[i as int].0] == e[i as int].1);
                    assert(keyed_map(e).contains_key(e[i as int].0));
                }
                return Some(i);
            }
            i = i + 1;
        }
        proof {
            if self.inputs_view().contains_key(name@) {
                let k = choose|k: int|
                    0 <= k < input_entries(self.inputs@).len() && input_entries(self.inputs@)[k].0
                        == name@;
                assert(self.inputs@[k].name@ == name@);
            }
        }
        None
    }

    /// The index of the state called `name`.
    fn find_state(&self, name: &String) -> (found: Option<usize>)
        requires
            self.wf(),
        ensures
            match found {
                Some(i) => i < self.states@.len() && self.states@[i as int].name() == name@
                    && self.states_view().contains_key(name@) && self.states_view()[name@]
                    == self.states@[i as int],
                None => !self.states_view().contains_key(name@),
            },
    {
        proof {
            lemma_keyed_map(state_entries(self.states@));
        }
        let mut i: usize = 0;
        while i < self.states.len()
            invariant
                self.wf(),
                i <= self.states@.len(),
                forall|j: int| 0 <= j < i ==> self.states@[j].name() != name@,
            decreases self.states@.len() - i,
        {
            if self.states[i].name == *name {
                proof {
                    let e = state_entries(self.states@);
                    lemma_keyed_map(e);
                    assert(e[i as int] == (self.states@[i as int].name(), self.states@[i as int]));
                    assert(keyed_map(e)[e[i as int].0] == e[i as int].1);
                    assert(keyed_map(e).contains_key(e[i as int].0));
                }
                return Some(i);
            }
            i = i + 1;
        }
        proof {
            if self.states_view().contains_key(name@) {
                let k = choose|k: int|
                    0 <= k < state_entries(self.states@).len() && state_entries(self.states@)[k].0
                        == name@;
                assert(self.states@[k].name() == name@);
            }
        }
        None
    }

    /// Adds the input `name` with `value`, replacing its value if it exists.
    pub fn add_input(&mut self, name: &str, value: i32)
        requires
            old(self).wf(),
        ensures
            final(self).wf(),
            final(self).inputs_view() == old(self).inputs_view().insert(name@, value),
            final(self).states_view() == old(self).states_view(),
            final(self).current() == old(self).current(),
            final(self).previous() == old(self).previous(),
            final(self).default() == old(self).default(),
    {
        let name = name.to_string();
        match self.find_input(&name) {
            Some(i) => {
                proof {
                    lemma_keyed_map_update(input_entries(self.inputs@), i as int, value);
                }
                self.inputs.set(i, Input { name, value });
                proof {
                    assert(input_entries(self.inputs@) =~= input_entries(old(self).inputs@).update(
                        i as int,
                        (input_entries(old(self).inputs@)[i as int].0, value),
                    ));
                }
            },
            None => {
                proof {
                    lemma_keyed_map_push(input_entries(self.inputs@), (name@, value));
                }
                self.inputs.push(Input { name, value });
                proof {
                    assert(input_entries(self.inputs@) =~= input_entries(old(self).inputs@).push(
                        (name@, value),
                    ));
                }
            },
        }
    }

    /// Sets the input `name` to `value`; nothing happens when there is no
    /// input of that name.
    pub fn set_input(&mut self, name: &str, value: i32)
        requires
            old(self).wf(),
        ensures
            final(self).wf(),
            final(self).inputs_view() == (if old(self).inputs_view().contains_key(name@) {
                old(self).inputs_view().insert(name@, value)
            } else {
                old(self).inputs_view()
            }),
            final(self).states_view() == old(self).states_view(),
            final(self).current() == old(self).current(),
            final(self).previous() == old(self).previous(),
            final(self).default() == old(self).default(),
    {
        let name = name.to_string();
        match self.find_input(&name) {
            Some(i) => {
                proof {
                    lemma_keyed_map_update(input_entries(self.inputs@), i as int, value);
                }
                self.inputs.set(i, Input { name, value });
                proof {
                    assert(input_entries(self.inputs@) =~= input_entries(old(self).inputs@).update(
                        i as int,
                        (input_entries(old(self).inputs@)[i as int].0, value),
                    ));
                }
            },
            None => {},
        }
    }

    /// The value of the input `name`, if it exists.
    pub fn get_input(&self, name: &str) -> (value: Option<i32>)
        requires
            self.wf(),
        ensures
            value == (if self.inputs_view().contains_key(name@) {
                Some(self.inputs_view()[name@])
            } else {
                None
            }),
    {
        let name = name.to_string();
        match self.find_input(&name) {
            Some(i) => Some(self.inputs[i].value),
            None => None,
        }
    }

    /// Adds `state`, replacing a state of the same name.
    pub fn add_state(&mut self, state: State)
        requires
            old(self).wf(),
        ensures
            final(self).wf(),
            final(self).states_view() == old(self).states_view().insert(state.name(), state),
            final(self).inputs_view() == old(self).inputs_view(),
            final(self).current() == old(self).current(),
            final(self).previous() == old(self).previous(),
            final(self).default() == old(self).default(),
    {
        let ghost st = state;
        match self.find_state(&state.name) {
            Some(i) => {
                proof {
                    lemma_keyed_map_update(state_entries(self.states@), i as int, st);
                }
                self.states.set(i, state);
                proof {
                    assert(state_entries(self.states@) =~= state_entries(old(self).states@).update(
                        i as int,
                        (state_entries(old(self).states@)[i as int].0, st),
                    ));
                }
            },
            None => {
                proof {
                    lemma_keyed_map_push(state_entries(self.states@), (st.name(), st));
                }
                self.states.push(state);
                proof {
                    assert(state_entries(self.states@) =~= state_entries(old(self).states@).push(
                        (st.name(), st),
                    ));
                }
            },
        }
    }

    /// Adds `state` and makes it both the default and the current state.
    pub fn set_default_state(&mut self, state: State)
        requires
            old(self).wf(),
        ensures
            final(self).wf(),
            final(self).states_view() == old(self).states_view().insert(state.name(), state),
            final(self).inputs_view() == old(self).inputs_view(),
            final(self).current() == state.name(),
            final(self).default() == state.name(),
            final(self).previous() == old(self).previous(),
    {
        let name = state.name.clone();
        self.add_state(state);
        self.default_state = name.clone();
        self.current_state = name;
    }

    /// Whether the comparison holds for the current inputs.
    fn comparison_holds(&self, c: &Comparison) -> (holds: bool)
        requires
            self.wf(),
            self.inputs_view().contains_key(c.left@),
            self.inputs_view().contains_key(c.right@),
        ensures
            holds == comparison_holds(self.inputs_view(), *c),
    {
        let l = self.find_input(&c.left);
        let r = self.find_input(&c.right);
        let lv = self.inputs[l.unwrap()].value as i64;
        let rv = self.inputs[r.unwrap()].value as i64;
        let d = lv - rv;
        let sign = if d < 0 {
            Sign::Negative
        } else if d == 0 {
            Sign::Zero
        } else {
            Sign::Positive
        };
        sign == c.sign
    }

    /// Whether every comparison of the condition holds.
    fn condition_holds(&self, condition: &Vec<Comparison>) -> (holds: bool)
        requires
            self.wf(),
            condition_resolvable(self.inputs_view(), condition@),
        ensures
            holds == condition_holds(self.inputs_view(), condition@),
    {
        let mut k: usize = 0;
        while k < condition.len()
            invariant
                k <= condition@.len(),
                self.wf(),
                condition_resolvable(self.inputs_view(), condition@),
                forall|j: int| 0 <= j < k ==> comparison_holds(self.inputs_view(), #[trigger] condition@[j]),
            decreases condition@.len() - k,
        {
            proof {
                assert(forall|j: int|
                    0 <= j < k ==> comparison_holds(self.inputs_view(), #[trigger] condition@[j]));
                assert(comparison_resolvable(self.inputs_view(), condition@[k as int]));
            }
            if !self.comparison_holds(&condition[k]) {
                return false;
            }
            k = k + 1;
        }
        true
    }

    /// Whether every input read while trying the transitions of the current
    /// state exists, so that `fire_transition` can evaluate what it reads.
    pub fn can_fire_transition(&self) -> (ok: bool)
        requires
            self.wf(),
        ensures
            ok == self.can_fire(),
    {
        let si = match self.find_state(&self.current_state) {
            Some(si) => si,
            None => {
                return true;
            },
        };
        let ghost inputs = self.inputs_view();
        let ghost ts = self.current_transitions();
        let n = self.states[si].transitions.len();
        let mut k: usize = 0;
        while k < n
            invariant
                self.wf(),
                inputs == self.inputs_view(),
                si < self.states@.len(),
                ts == self.current_transitions(),
                ts == self.states@[si as int].transitions@,
                n == ts.len(),
                k <= n,
                forall|j: int|
                    0 <= j < k ==> condition_resolvable(inputs, #[trigger] ts[j].condition@)
                        && !condition_holds(inputs, ts[j].condition@),
            decreases n - k,
        {
            let condition = &self.states[si].transitions[k].condition;
            let ghost cs = condition@;
            let mut c: usize = 0;
            let mut fails = false;
            while c < condition.len() && !fails
                invariant
                    self.wf(),
                    inputs == self.inputs_view(),
                    cs == condition@,
                    k < n,
                    n == ts.len(),
                    ts == self.current_transitions(),
                    cs == ts[k as int].condition@,
                    forall|j: int|
                        0 <= j < k ==> condition_resolvable(inputs, #[trigger] ts[j].condition@)
                            && !condition_holds(inputs, ts[j].condition@),
                    c <= cs.len(),
                    forall|j: int| 0 <= j < c ==> comparison_holds(inputs, #[trigger] cs[j]),
                    forall|j: int| 0 <= j < c ==> comparison_resolvable(inputs, #[trigger] cs[j]),
                    fails ==> c < cs.len() && comparison_resolvable(inputs, cs[c as int])
                        && !comparison_holds(inputs, cs[c as int]),
                decreases cs.len() - c + if fails { 0int } else { 1int },
            {
                let left = self.find_input(&condition[c].left);
                let right = self.find_input(&condition[c].right);
                if left.is_none() || right.is_none() {
                    proof {
                        assert(!comparison_resolvable(inputs, cs[c as int]));
                        assert(!condition_resolvable(inputs, cs));
                        assert(cs == ts[k as int].condition@);
                        assert(forall|j: int|
                            0 <= j < k ==> !condition_holds(inputs, #[trigger] ts[j].condition@));
                    }
                    return false;
                }
                if self.comparison_holds(&condition[c]) {
                    c = c + 1;
                } else {
                    fails = true;
                }
            }
            proof {
                assert(cs == ts[k as int].condition@);
            }
            if !fails {
                proof {
                    assert(condition_holds(inputs, cs));
                    assert(condition_resolvable(inputs, cs));
                    assert forall|m: int|
                        0 <= m < ts.len() && (forall|j: int|
                            0 <= j < m ==> !condition_holds(
                                inputs,
                                #[trigger] ts[j].condition@,
                            )) implies condition_resolvable(inputs, #[trigger] ts[m].condition@) by {
                        if m > k {
                            assert(!condition_holds(inputs, ts[k as int].condition@));
                        }
                    }
                }
                return true;
            }
            proof {
                assert forall|m: int|
                    0 <= m < cs.len() && (forall|j: int|
                        0 <= j < m ==> comparison_holds(inputs, #[trigger] cs[j])) implies comparison_resolvable(
                    inputs,
                    #[trigger] cs[m],
                ) by {
                    if m > c {
                        assert(comparison_holds(inputs, cs[c as int]));
                    }
                }
                assert(!comparison_holds(inputs, cs[c as int]));
                assert(!condition_holds(inputs, cs));
            }
            k = k + 1;
        }
        true
    }

    /// Takes the first transition of the current state whose condition
    /// holds: the current state becomes the previous one and the
    /// transition's target the current one. Returns the index of that
    /// transition among the state's transitions, or `None` when no
    /// condition holds, in which case nothing changes.
    pub fn fire_transition(&mut self) -> (fired: Option<usize>)
        requires
            old(self).wf(),
            old(self).can_fire(),
        ensures
            final(self).wf(),
            final(self).inputs_view() == old(self).inputs_view(),
            final(self).states_view() == old(self).states_view(),
            final(self).default() == old(self).default(),
            match fired {
                Some(k) => {
                    &&& first_firing(old(self).inputs_view(), old(self).current_transitions(), k as int)
                    &&& final(self).current() == old(self).current_transitions()[k as int].to_state@
                    &&& final(self).previous() == Some(old(self).current())
                },
                None => {
                    &&& forall|j: int|
                        0 <= j < old(self).current_transitions().len() ==> !condition_holds(
                            old(self).inputs_view(),
                            #[trigger] old(self).current_transitions()[j].condition@,
                        )
                    &&& final(self).current() == old(self).current()
                    &&& final(self).previous() == old(self).previous()
                },
            },
    {
        let si = match self.find_state(&self.current_state) {
            Some(si) => si,
            None => {
                return None;
            },
        };
        let n = self.states[si].transitions.len();
        let mut k: usize = 0;
        while k < n
            invariant
                *self == *old(self),
                self.wf(),
                self.can_fire(),
                si < self.states@.len(),
                self.states_view()[self.current()] == self.states@[si as int],
                self.states_view().contains_key(self.current()),
                n == self.states@[si as int].transitions@.len(),
                k <= n,
                forall|j: int|
                    0 <= j < k ==> !condition_holds(
                        self.inputs_view(),
                        #[trigger] self.current_transitions()[j].condition@,
                    ),
            decreases n - k,
        {
            proof {
                assert(self.current_transitions()[k as int] == self.states@[si as int].transitions@[k as int]);
            }
            if self.condition_holds(&self.states[si].transitions[k].condition) {
                let to = self.states[si].transitions[k].to_state.clone();
                let from = self.current_state.clone();
                self.previous_state = Some(from);
                self.current_state = to;
                return Some(k);
            }
            k = k + 1;
        }
        None
    }

    /// Ends the blend out of the previous state.
    pub fn end_transition(&mut self)
        requires
            old(self).wf(),
        ensures
            final(self).wf(),
            final(self).inputs_view() == old(self).inputs_view(),
            final(self).states_view() == old(self).states_view(),
            final(self).current() == old(self).current(),
            final(self).default() == old(self).default(),
            final(self).previous() is None,
    {
        self.previous_state = None;
    }

    pub fn current_state(&self) -> (name: &String)
        ensures
            name@ == self.current(),
    {
        &self.current_state
    }

    pub fn previous_state(&self) -> (name: Option<&String>)
        ensures
            match name {
                Some(n) => self.previous() == Some(n@),
                None => self.previous() is None,
            },
    {
        match &self.previous_state {
            Some(p) => Some(p),
            None => None,
        }
    }

    /// The states, in the order they were first added.
    pub fn get_states(&self) -> (states: &Vec<State>)
        requires
            self.wf(),
        ensures
            unique_keys(state_entries(states@)),
            keyed_map(state_entries(states@)) == self.states_view(),
    {
        &self.states
    }

    /// The state called `name`, if there is one.
    pub fn get_state(&self, name: &String) -> (state: Option<&State>)
        requires
            self.wf(),
        ensures
            match state {
                Some(s) => self.states_view().contains_key(name@) && *s == self.states_view()[name@],
                None => !self.states_view().contains_key(name@),
            },
    {
        match self.find_state(name) {
            Some(i) => Some(&self.states[i]),
            None => None,
        }
    }
}

} // verus!
