use vstd::prelude::*;

use crate::runner::{InitAction, WasmMode};
use crate::str_map::StrMap;
use crate::text::{starts_with_str, str_equal};
use crate::ustar::{Archive, SharedBytes};

verus! {

/// The runner name that stands for the contract's own code in a `With` action.
pub open spec fn contract_marker() -> Seq<char> {
    "<contract>"@
}

/// `s` ends with `/`.
pub open spec fn ends_with_slash(s: Seq<char>) -> bool {
    s.len() > 0 && s.last() == '/'
}

/// Whether `s` ends with `/`.
pub fn str_ends_with_slash(s: &str) -> (r: bool)
    ensures
        r == ends_with_slash(s@),
{
    let n = s.unicode_len();
    n > 0 && s.get_char(n - 1) == '/'
}

/// A piece of outside work that applying a runner's actions asks for.
pub enum Effect {
    /// Map the file `file` of runner `runner` to `to` in the VM's file system.
    MapFile { runner: String, to: String, file: String },
    /// Map every file under directory `dir` (which ends in `/`) of runner `runner` to the same
    /// place under `to`.
    MapDir { runner: String, to: String, dir: String },
    /// Set environment variable `name` to `val`, once the `${..}` references in `val` are
    /// expanded from the variables set before.
    AddEnv { name: String, val: String },
    /// Set the program arguments.
    SetArgs(Vec<String>),
    /// Link wasm module `path` of runner `runner` into the VM.
    LinkWasm { runner: String, path: String },
    /// Start wasm module `path` of runner `runner`, with the environment set so far.
    StartWasm { runner: String, path: String },
    /// Make sure runner `runner` is loaded; the actions that follow run with it.
    LoadRunner(String),
    /// Load runner `runner` and hand its actions back with `provide_dependency`.
    LoadDependency(String),
}

/// An effect, by the characters of its strings.
pub enum EffectView {
    MapFile { runner: Seq<char>, to: Seq<char>, file: Seq<char> },
    MapDir { runner: Seq<char>, to: Seq<char>, dir: Seq<char> },
    AddEnv { name: Seq<char>, val: Seq<char> },
    SetArgs(Seq<String>),
    LinkWasm { runner: Seq<char>, path: Seq<char> },
    StartWasm { runner: Seq<char>, path: Seq<char> },
    LoadRunner(Seq<char>),
    LoadDependency(Seq<char>),
}

impl View for Effect {
    type V = EffectView;

    open spec fn view(&self) -> EffectView {
        match self {
            Effect::MapFile { runner, to, file } => EffectView::MapFile {
                runner: runner@,
                to: to@,
                file: file@,
            },
            Effect::MapDir { runner, to, dir } => EffectView::MapDir {
                runner: runner@,
                to: to@,
                dir: dir@,
            },
            Effect::AddEnv { name, val } => EffectView::AddEnv { name: name@, val: val@ },
            Effect::SetArgs(args) => EffectView::SetArgs(args@),
            Effect::LinkWasm { runner, path } => EffectView::LinkWasm {
                runner: runner@,
                path: path@,
            },
            Effect::StartWasm { runner, path } => EffectView::StartWasm {
                runner: runner@,
                path: path@,
            },
            Effect::LoadRunner(r) => EffectView::LoadRunner(r@),
            Effect::LoadDependency(r) => EffectView::LoadDependency(r@),
        }
    }
}

/// What one step of applying actions gives.
pub enum WalkStep {
    /// Perform this effect, then step again.
    Apply(Effect),
    /// Nothing to perform; step again.
    Continue,
    /// No action is left (or a module was started).
    Done,
}

/// One step on the action `a` of runner `cur`: the effect to perform, the actions to apply
/// next (in order), whether a module is started, and the dependency that is now visited.
pub open spec fn spec_action_step(
    a: InitAction,
    cur: Seq<char>,
    det: bool,
    contract: Seq<char>,
    visited: Set<Seq<char>>,
) -> (Option<EffectView>, Seq<(InitAction, Seq<char>)>, bool, Option<Seq<char>>) {
    match a {
        InitAction::MapFile { to, file } => (
            Some(
                if ends_with_slash(file@) {
                    EffectView::MapDir { runner: cur, to: to@, dir: file@ }
                } else {
                    EffectView::MapFile { runner: cur, to: to@, file: file@ }
                },
            ),
            Seq::empty(),
            false,
            None,
        ),
        InitAction::AddEnv { name, val } => (
            Some(EffectView::AddEnv { name: name@, val: val@ }),
            Seq::empty(),
            false,
            None,
        ),
        InitAction::SetArgs(args) => (Some(EffectView::SetArgs(args@)), Seq::empty(), false, None),
        InitAction::LinkWasm(path) => (
            Some(EffectView::LinkWasm { runner: cur, path: path@ }),
            Seq::empty(),
            false,
            None,
        ),
        InitAction::StartWasm(path) => (
            Some(EffectView::StartWasm { runner: cur, path: path@ }),
            Seq::empty(),
            true,
            None,
        ),
        InitAction::When { cond, action } => (
            None,
            if (cond == WasmMode::Det) == det {
                seq![(*action, cur)]
            } else {
                Seq::empty()
            },
            false,
            None,
        ),
        InitAction::Sequence(actions) => (
            None,
            Seq::new(actions@.len(), |i: int| (actions@[actions@.len() - 1 - i], cur)),
            false,
            None,
        ),
        InitAction::With { runner, action } => if runner@ == contract_marker() {
            (None, seq![(*action, contract)], false, None)
        } else {
            (Some(EffectView::LoadRunner(runner@)), seq![(*action, runner@)], false, None)
        },
        InitAction::Depends(id) => if visited.contains(id@) {
            (None, Seq::empty(), false, None)
        } else {
            (Some(EffectView::LoadDependency(id@)), Seq::empty(), false, Some(id@))
        },
    }
}

/// Applies a runner's actions one step at a time: the actions still to apply are kept on a
/// stack, the last one first, each with the runner it belongs to.
pub struct ActionWalker {
    frames: Vec<(InitAction, String)>,
    visited: Vec<String>,
    contract_id: String,
    det: bool,
    started: bool,
    failed: bool,
    env: StrMap<String>,
}

/// The frames, with their runners by their characters.
pub open spec fn frames_view(s: Seq<(InitAction, String)>) -> Seq<(InitAction, Seq<char>)> {
    Seq::new(s.len(), |i: int| (s[i].0, s[i].1@))
}

/// `w1` and `r` are what one step of the walker `w0` gives: nothing more when it started a
/// module, failed, or has no action left; otherwise the effect of its next action, with that
/// action replaced by the actions it leads to.
pub open spec fn is_walk_step(w0: ActionWalker, w1: ActionWalker, r: WalkStep) -> bool {
    &&& w1.contract() == w0.contract()
    &&& w1.is_det() == w0.is_det()
    &&& w1.env() == w0.env()
    &&& w0.visited().subset_of(w1.visited())
    &&& w0.started() ==> w1.started()
    &&& w1.failed() == w0.failed()
    &&& w0.started() || w0.failed() || w0.frames().len() == 0 ==> {
        &&& r is Done
        &&& w1.frames() == w0.frames()
        &&& w1.visited() == w0.visited()
        &&& w1.started() == w0.started()
    }
    &&& !w0.started() && !w0.failed() && w0.frames().len() > 0 ==> {
        let (a, cur) = w0.frames().last();
        let (effect, next, starts, dep) = spec_action_step(
            a,
            cur,
            w0.is_det(),
            w0.contract(),
            w0.visited(),
        );
        &&& (match effect {
            Some(e) => r matches WalkStep::Apply(x) && x@ == e,
            None => r is Continue,
        })
        &&& w1.started() == starts
        &&& w1.frames() == if starts {
            Seq::empty()
        } else {
            w0.frames().drop_last() + next
        }
        &&& w1.visited() == match dep {
            Some(d) => w0.visited().insert(d),
            None => w0.visited(),
        }
    }
}

impl ActionWalker {
    /// The actions still to apply, the next one last.
    pub closed spec fn frames(&self) -> Seq<(InitAction, Seq<char>)> {
        frames_view(self.frames@)
    }

    /// The runners whose dependencies were taken already.
    pub closed spec fn visited(&self) -> Set<Seq<char>> {
        Set::new(|s: Seq<char>| exists|i: int| 0 <= i < self.visited@.len() && self.visited@[i]@ == s)
    }

    /// The contract's own runner id.
    pub closed spec fn contract(&self) -> Seq<char> {
        self.contract_id@
    }

    /// Whether the VM runs deterministically.
    pub closed spec fn is_det(&self) -> bool {
        self.det
    }

    /// Whether a module was started.
    pub closed spec fn started(&self) -> bool {
        self.started
    }

    /// Whether an effect failed, which ends the actions with that failure.
    pub closed spec fn failed(&self) -> bool {
        self.failed
    }

    /// The environment set so far.
    pub closed spec fn env(&self) -> Map<Seq<char>, Seq<char>> {
        self.env@.map_values(|v: String| v@)
    }

    /// Starts applying `action`, the actions of the contract `contract_id`, in a VM that runs
    /// deterministically when `det`.
    pub fn new(action: InitAction, contract_id: String, det: bool) -> (r: ActionWalker)
        ensures
            r.frames() == seq![(action, contract_id@)],
            r.visited() == Set::<Seq<char>>::empty(),
            r.contract() == contract_id@,
            r.is_det() == det,
            !r.started(),
            !r.failed(),
            r.env() == Map::<Seq<char>, Seq<char>>::empty(),
    {
        let mut frames: Vec<(InitAction, String)> = Vec::new();
        let c = contract_id.clone();
        frames.push((action, c));
        let r = ActionWalker {
            frames,
            visited: Vec::new(),
            contract_id,
            det,
            started: false,
            failed: false,
            env: StrMap::new(),
        };
        assert(r.frames() =~= seq![(action, contract_id@)]);
        assert(r.visited() =~= Set::<Seq<char>>::empty());
        assert(r.env() =~= Map::<Seq<char>, Seq<char>>::empty());
        r
    }

    /// Whether a module was started: applying actions that end without one is an error.
    pub fn has_started(&self) -> (r: bool)
        ensures
            r == self.started(),
    {
        self.started
    }

    fn is_visited(&self, id: &str) -> (r: bool)
        ensures
            r == self.visited().contains(id@),
    {
        let mut i: usize = 0;
        while i < self.visited.len()
            invariant
                0 <= i <= self.visited@.len(),
                forall|j: int| 0 <= j < i ==> self.visited@[j]@ != id@,
            decreases self.visited@.len() - i,
        {
            if str_equal(self.visited[i].as_str(), id) {
                assert(self.visited@[i as int]@ == id@);
                return true;
            }
            i = i + 1;
        }
        false
    }

    /// Takes the next action and says what to do for it.
    pub fn step(&mut self) -> (r: WalkStep)
        ensures
            is_walk_step(*old(self), *final(self), r),
    {
        if self.started || self.failed || self.frames.len() == 0 {
            return WalkStep::Done;
        }
        let ghost old_frames = self.frames@;
        let ghost old_visited = self.visited();
        let (a, cur) = self.frames.pop().unwrap();
        assert(frames_view(self.frames@) =~= frames_view(old_frames).drop_last());
        let ghost rest = frames_view(self.frames@);
        match a {
            InitAction::MapFile { to, file } => {
                let is_dir = str_ends_with_slash(file.as_str());
                if is_dir {
                    WalkStep::Apply(Effect::MapDir { runner: cur, to, dir: file })
                } else {
                    WalkStep::Apply(Effect::MapFile { runner: cur, to, file })
                }
            },
            InitAction::AddEnv { name, val } => WalkStep::Apply(Effect::AddEnv { name, val }),
            InitAction::SetArgs(args) => WalkStep::Apply(Effect::SetArgs(args)),
            InitAction::LinkWasm(path) => WalkStep::Apply(Effect::LinkWasm { runner: cur, path }),
            InitAction::StartWasm(path) => {
                self.started = true;
                self.frames = Vec::new();
                assert(frames_view(self.frames@) =~= Seq::<(InitAction, Seq<char>)>::empty());
                WalkStep::Apply(Effect::StartWasm { runner: cur, path })
            },
            InitAction::When { cond, action } => {
                let wanted = match cond {
                    WasmMode::Det => true,
                    WasmMode::Nondet => false,
                };
                if wanted == self.det {
                    self.frames.push((*action, cur));
                    assert(frames_view(self.frames@) =~= rest + seq![(*action, cur@)]);
                } else {
                    assert(rest + Seq::<(InitAction, Seq<char>)>::empty() =~= rest);
                }
                WalkStep::Continue
            },
            InitAction::Sequence(actions) => {
                let ghost acts = actions@;
                let mut actions = actions;
                let ghost next = Seq::new(acts.len(), |i: int| (acts[acts.len() - 1 - i], cur@));
                let mut k: usize = 0;
                let n = actions.len();
                while k < n
                    invariant
                        n == acts.len(),
                        0 <= k <= n,
                        actions@ == acts.take(n - k),
                        frames_view(self.frames@) == rest + next.take(k as int),
                        next == Seq::new(acts.len(), |i: int| (acts[acts.len() - 1 - i], cur@)),
                        self.contract_id == old(self).contract_id,
                        self.det == old(self).det,
                        self.env == old(self).env,
                        self.visited == old(self).visited,
                        self.started == old(self).started,
                        self.failed == old(self).failed,
                    decreases n - k,
                {
                    let act = actions.pop().unwrap();
                    assert(act == acts[n - 1 - k]);
                    let ghost prev = self.frames@;
                    let c = cur.clone();
                    self.frames.push((act, c));
                    assert(frames_view(self.frames@) =~= frames_view(prev).push((act, cur@)));
                    assert(actions@ =~= acts.take(n - k - 1));
                    assert(next.take(k + 1) =~= next.take(k as int).push(next[k as int]));
                    assert(frames_view(self.frames@) =~= rest + next.take(k + 1));
                    k = k + 1;
                }
                assert(next.take(n as int) =~= next);
                WalkStep::Continue
            },
            InitAction::With { runner, action } => {
                proof {
                    reveal_strlit("<contract>");
                }
                if str_equal(runner.as_str(), "<contract>") {
                    let c = self.contract_id.clone();
                    self.frames.push((*action, c));
                    assert(frames_view(self.frames@) =~= rest + seq![(*action, self.contract_id@)]);
                    WalkStep::Continue
                } else {
                    let r2 = runner.clone();
                    self.frames.push((*action, r2));
                    assert(frames_view(self.frames@) =~= rest + seq![(*action, runner@)]);
                    WalkStep::Apply(Effect::LoadRunner(runner))
                }
            },
            InitAction::Depends(id) => {
                if self.is_visited(id.as_str()) {
                    assert(rest + Seq::<(InitAction, Seq<char>)>::empty() =~= rest);
                    WalkStep::Continue
                } else {
                    let id2 = id.clone();
                    let ghost old_vec = self.visited@;
                    self.visited.push(id2);
                    assert(self.visited() =~= old_visited.insert(id@)) by {
                        assert forall|s: Seq<char>| self.visited().contains(s) <==> old_visited.insert(
                            id@,
                        ).contains(s) by {
                            if old_visited.contains(s) {
                                let i = choose|i: int| 0 <= i < old_vec.len() && old_vec[i]@ == s;
                                assert(self.visited@[i]@ == s);
                            }
                            if s == id@ {
                                assert(self.visited@[self.visited@.len() - 1]@ == s);
                            }
                            if self.visited().contains(s) && s != id@ {
                                let i = choose|i: int|
                                    0 <= i < self.visited@.len() && self.visited@[i]@ == s;
                                assert(i < old_vec.len());
                                assert(old_vec[i]@ == s);
                            }
                        }
                    }
                    assert(rest + Seq::<(InitAction, Seq<char>)>::empty() =~= rest);
                    WalkStep::Apply(Effect::LoadDependency(id))
                }
            },
        }
    }

    /// Hands back the actions of dependency `id`, after a `LoadDependency` effect: they are
    /// applied next, with `id` as their runner.
    pub fn provide_dependency(&mut self, id: String, actions: InitAction)
        ensures
            final(self).frames() == old(self).frames().push((actions, id@)),
            final(self).visited() == old(self).visited(),
            final(self).contract() == old(self).contract(),
            final(self).is_det() == old(self).is_det(),
            final(self).started() == old(self).started(),
            final(self).failed() == old(self).failed(),
            final(self).env() == old(self).env(),
    {
        let ghost before = frames_view(self.frames@);
        self.frames.push((actions, id));
        assert(frames_view(self.frames@) =~= before.push((actions, id@)));
    }

    /// Sets environment variable `name` to `val` (already expanded), after an `AddEnv` effect.
    pub fn set_env(&mut self, name: String, val: String)
        ensures
            final(self).env() == old(self).env().insert(name@, val@),
            final(self).frames() == old(self).frames(),
            final(self).visited() == old(self).visited(),
            final(self).contract() == old(self).contract(),
            final(self).is_det() == old(self).is_det(),
            final(self).started() == old(self).started(),
            final(self).failed() == old(self).failed(),
    {
        let ghost before = self.env@;
        self.env.insert(name, val);
        assert(self.env() =~= before.map_values(|v: String| v@).insert(name@, val@));
    }

    /// Records that the effect of the last step failed: that failure ends the actions, and no
    /// action after it is applied (every later step is `Done`).
    pub fn fail(&mut self)
        ensures
            final(self).failed(),
            final(self).frames() == Seq::<(InitAction, Seq<char>)>::empty(),
            final(self).visited() == old(self).visited(),
            final(self).contract() == old(self).contract(),
            final(self).is_det() == old(self).is_det(),
            final(self).started() == old(self).started(),
            final(self).env() == old(self).env(),
    {
        self.failed = true;
        self.frames = Vec::new();
        assert(frames_view(self.frames@) =~= Seq::<(InitAction, Seq<char>)>::empty());
    }

    /// Whether an effect failed.
    pub fn has_failed(&self) -> (r: bool)
        ensures
            r == self.failed(),
    {
        self.failed
    }

    /// The environment set so far, in ascending order of names.
    pub fn env_entries(&self) -> (r: &Vec<(String, String)>)
        ensures
            crate::str_map::keys_ascending(r@),
            crate::str_map::assoc_map(r@).map_values(|v: String| v@) == self.env(),
    {
        self.env.entries()
    }
}


/// A dependency is loaded at most once: a step asks to load one only when it was not visited,
/// and marks it visited; a `Depends` on a visited runner does nothing. Since the visited set
/// only grows from step to step, no runner is loaded twice as a dependency.
pub proof fn lemma_dependency_once(
    a: InitAction,
    cur: Seq<char>,
    det: bool,
    contract: Seq<char>,
    visited: Set<Seq<char>>,
    later: Set<Seq<char>>,
)
    requires
        visited.subset_of(later),
    ensures
        spec_action_step(a, cur, det, contract, visited).0 matches Some(EffectView::LoadDependency(d))
            ==> (!visited.contains(d) && spec_action_step(a, cur, det, contract, visited).3 == Some(
            d,
        ) && spec_action_step(a, cur, det, contract, later.insert(d)).0 is None),
        a matches InitAction::Depends(id) && visited.contains(id@) ==> spec_action_step(
            a,
            cur,
            det,
            contract,
            later,
        ).0 is None,
{
}

/// Starting a module ends the actions: only `StartWasm` starts one, and a walker that started
/// one does nothing more.
pub proof fn lemma_start_ends(a: InitAction, cur: Seq<char>, det: bool, contract: Seq<char>, visited: Set<Seq<char>>)
    ensures
        spec_action_step(a, cur, det, contract, visited).2 <==> a is StartWasm,
{
}

/// A `When` action is its action where its condition matches the VM's mode, and nothing where
/// it does not. Whatever state the walker is in, a step on a `When` (condition `cond`, action
/// `a`, runner `c`) performs no effect, starts no module, visits no dependency and changes no
/// environment: a walker that started a module or failed is done and stays as it is; otherwise
/// the `When` is replaced by `a` on the same runner `c` when `cond` matches the mode, so that the
/// next step takes `a` as a walker whose next action it is would, and is dropped when it does not.
pub proof fn lemma_when_is_its_action(
    w0: ActionWalker,
    w1: ActionWalker,
    r: WalkStep,
    cond: WasmMode,
    a: InitAction,
    c: Seq<char>,
)
    requires
        w0.frames().len() > 0,
        w0.frames().last() == (InitAction::When { cond, action: Box::new(a) }, c),
        is_walk_step(w0, w1, r),
    ensures
        w1.visited() == w0.visited(),
        w1.started() == w0.started(),
        w1.failed() == w0.failed(),
        w1.env() == w0.env(),
        w1.contract() == w0.contract(),
        w1.is_det() == w0.is_det(),
        w0.started() || w0.failed() ==> r is Done && w1.frames() == w0.frames(),
        !w0.started() && !w0.failed() ==> r is Continue && w1.frames() == w0.frames().drop_last() + if (
        cond == WasmMode::Det) == w0.is_det() {
            seq![(a, c)]
        } else {
            Seq::<(InitAction, Seq<char>)>::empty()
        },
{
}

/// Each action a running walker takes next does what it names, for the runner it belongs to:
/// a `MapFile` maps that file (or, for a name ending in `/`, that directory) of the action's own
/// runner `cur`, never of another; `LinkWasm` and `StartWasm` link and start a module of `cur`,
/// and starting one ends the actions; `With` applies its action next with the runner it names
/// (loaded first) or, for `<contract>`, with the contract itself; a `Sequence` applies its actions
/// next, first to last, all with `cur`; `AddEnv` and `SetArgs` ask for just that; `Depends` loads
/// a runner not loaded as a dependency yet, and does nothing for one that was. No action changes
/// the environment, the contract or the mode, and none but a dependency's marks a runner visited.
pub proof fn lemma_step_applies_the_action(
    w0: ActionWalker,
    w1: ActionWalker,
    r: WalkStep,
    a: InitAction,
    cur: Seq<char>,
)
    requires
        !w0.started(),
        !w0.failed(),
        w0.frames().len() > 0,
        w0.frames().last() == (a, cur),
        is_walk_step(w0, w1, r),
    ensures
        w1.env() == w0.env(),
        w1.contract() == w0.contract(),
        w1.is_det() == w0.is_det(),
        !(a is Depends) ==> w1.visited() == w0.visited(),
        a is StartWasm <==> w1.started(),
        a matches InitAction::MapFile { to, file } ==> r matches WalkStep::Apply(x) && (if ends_with_slash(
            file@,
        ) {
            x@ == EffectView::MapDir { runner: cur, to: to@, dir: file@ }
        } else {
            x@ == EffectView::MapFile { runner: cur, to: to@, file: file@ }
        }) && w1.frames() == w0.frames().drop_last(),
        a matches InitAction::LinkWasm(path) ==> r matches WalkStep::Apply(x) && x@ == (EffectView::LinkWasm {
            runner: cur,
            path: path@,
        }) && w1.frames() == w0.frames().drop_last(),
        a matches InitAction::StartWasm(path) ==> r matches WalkStep::Apply(x) && x@ == (EffectView::StartWasm {
            runner: cur,
            path: path@,
        }) && w1.frames().len() == 0,
        a matches InitAction::AddEnv { name, val } ==> r matches WalkStep::Apply(x) && x@ == (EffectView::AddEnv {
            name: name@,
            val: val@,
        }) && w1.frames() == w0.frames().drop_last(),
        a matches InitAction::SetArgs(args) ==> r matches WalkStep::Apply(x) && x@ == EffectView::SetArgs(args@)
            && w1.frames() == w0.frames().drop_last(),
        a matches InitAction::With { runner, action } ==> (if runner@ == "<contract>"@ {
            r is Continue && w1.frames() == w0.frames().drop_last().push((*action, w0.contract()))
        } else {
            r matches WalkStep::Apply(x) && x@ == EffectView::LoadRunner(runner@) && w1.frames()
                == w0.frames().drop_last().push((*action, runner@))
        }),
        a matches InitAction::Sequence(acts) ==> {
            &&& r is Continue
            &&& w1.frames().len() == w0.frames().len() - 1 + acts@.len()
            &&& w1.frames().take(w0.frames().len() - 1) == w0.frames().drop_last()
            &&& forall|i: int|
                0 <= i < acts@.len() ==> #[trigger] w1.frames()[w1.frames().len() - 1 - i] == (acts@[i], cur)
        },
        a matches InitAction::Depends(id) ==> w1.frames() == w0.frames().drop_last() && (if w0.visited().contains(
            id@,
        ) {
            r is Continue && w1.visited() == w0.visited()
        } else {
            r matches WalkStep::Apply(x) && x@ == EffectView::LoadDependency(id@) && w1.visited()
                == w0.visited().insert(id@)
        }),
{
    reveal_strlit("<contract>");
    if let InitAction::Sequence(acts) = a {
        let n = acts@.len();
        let k = w0.frames().len() - 1;
        assert(w1.frames().take(k) =~= w0.frames().drop_last());
        assert forall|i: int| 0 <= i < n implies #[trigger] w1.frames()[w1.frames().len() - 1 - i] == (
            acts@[i],
            cur,
        ) by {
            assert(w1.frames()[k + (n - 1 - i)] == (acts@[n - 1 - (n - 1 - i)], cur));
        }
    }
    if let InitAction::MapFile { to, file } = a {
        assert(w0.frames().drop_last() + Seq::<(InitAction, Seq<char>)>::empty() =~= w0.frames().drop_last());
    }
    if let InitAction::LinkWasm(p) = a {
        assert(w0.frames().drop_last() + Seq::<(InitAction, Seq<char>)>::empty() =~= w0.frames().drop_last());
    }
    if let InitAction::AddEnv { name, val } = a {
        assert(w0.frames().drop_last() + Seq::<(InitAction, Seq<char>)>::empty() =~= w0.frames().drop_last());
    }
    if let InitAction::SetArgs(x) = a {
        assert(w0.frames().drop_last() + Seq::<(InitAction, Seq<char>)>::empty() =~= w0.frames().drop_last());
    }
    if let InitAction::Depends(x) = a {
        assert(w0.frames().drop_last() + Seq::<(InitAction, Seq<char>)>::empty() =~= w0.frames().drop_last());
    }
    if let InitAction::With { runner, action } = a {
        assert(w0.frames().drop_last() + seq![(*action, w0.contract())] =~= w0.frames().drop_last().push(
            (*action, w0.contract()),
        ));
        assert(w0.frames().drop_last() + seq![(*action, runner@)] =~= w0.frames().drop_last().push(
            (*action, runner@),
        ));
    }
}

} // verus!
