//! A disk and an environment as staging sees them, and a staging carried
//! out on them from its first action to its last. This is what the laws of
//! staging are stated over.
//!
//! Nothing is ever removed in this world, and an action fails in it where
//! its path is one of those that the world holds as blocked, and only
//! there. Which paths are blocked is for the laws to say: a directory that
//! is missing and cannot be created is a world that is `closed_below` it.

use crate::plan::StepView;
use crate::paths::lies_below;
use crate::staging::{stale, write_of, ActionView, Phase, Reply, StagingView};
use vstd::prelude::*;

verus! {

/// The part of the machine that staging reads and changes.
pub struct World {
    /// The files on disk: the length in bytes of each, by its path.
    pub files: Map<Seq<char>, u64>,
    /// The paths of the directories on disk.
    pub dirs: Set<Seq<char>>,
    /// The library search path of the process, where it is set.
    pub search_path: Option<Seq<char>>,
    /// The paths at which no file can be written and no directory created.
    pub blocked: Set<Seq<char>>,
}

impl World {
    /// Nothing can be written or created at `root` or below it: the case of
    /// a directory that is missing and cannot be created.
    pub open spec fn closed_below(self, root: Seq<char>) -> bool {
        forall|p: Seq<char>| #[trigger] lies_below(p, root) ==> self.blocked.contains(p)
    }

    /// The length of the file at `path`, where there is one.
    pub open spec fn size(self, path: Seq<char>) -> Option<u64> {
        if self.files.dom().contains(path) {
            Some(self.files[path])
        } else {
            None
        }
    }

    /// What this world reports when `action` is carried out in it.
    pub open spec fn answer(self, action: ActionView) -> Reply {
        match action {
            ActionView::CheckDir { path } => Reply::Exists(self.dirs.contains(path)),
            ActionView::Inspect { path } => Reply::Size(self.size(path)),
            ActionView::CreateDir { path } => Reply::Done(!self.blocked.contains(path)),
            ActionView::WriteFile { path, .. } => Reply::Done(!self.blocked.contains(path)),
            _ => Reply::Done(true),
        }
    }

    /// This world once `action` has been carried out in it. An action that
    /// fails leaves the world as it is.
    pub open spec fn after(self, action: ActionView) -> World {
        match action {
            ActionView::CreateDir { path } => if self.blocked.contains(path) {
                self
            } else {
                World { dirs: self.dirs.insert(path), ..self }
            },
            ActionView::WriteFile { path, contents, .. } => if self.blocked.contains(path) {
                self
            } else {
                World { files: self.files.insert(path, contents.len() as u64), ..self }
            },
            ActionView::SetSearchPath { value } => World { search_path: Some(value), ..self },
            _ => self,
        }
    }
}

/// A staging that was carried out: where it stands, what the world has
/// become, and the actions that were taken, in order.
pub struct Run {
    pub state: StagingView,
    pub world: World,
    pub actions: Seq<ActionView>,
}

/// Carries out `state` in `world`: the pending action is taken, the
/// world's answer is handed back, and so on until nothing is left to do or
/// `limit` actions were taken.
pub open spec fn run(state: StagingView, world: World, limit: nat) -> Run
    decreases limit,
{
    if limit == 0 || state.pending() is Finish {
        Run { state, world, actions: Seq::empty() }
    } else {
        let action = state.pending();
        let rest = run(state.next(world.answer(action)), world.after(action), (limit - 1) as nat);
        Run { state: rest.state, world: rest.world, actions: seq![action] + rest.actions }
    }
}

/// Carries out `state` in `world` to its end. No staging takes more than
/// two actions for its directory, two for each step, and one for the
/// search path.
pub open spec fn stage(state: StagingView, world: World) -> Run {
    run(state, world, 2 * state.steps.len() + 3)
}

/// The actions that take the step `step` in `world`: a file is looked at,
/// and written where it is stale; a directory is created.
pub open spec fn step_actions(step: StepView, world: World) -> Seq<ActionView> {
    match step {
        StepView::File { path, contents, .. } => if stale(contents.len(), world.size(path)) {
            seq![ActionView::Inspect { path }, write_of(step)]
        } else {
            seq![ActionView::Inspect { path }]
        },
        StepView::Dir { path } => seq![ActionView::CreateDir { path }],
    }
}

/// The world after the step `step` was taken in `world`.
pub open spec fn step_world(step: StepView, world: World) -> World {
    match step {
        StepView::File { path, contents, .. } => if stale(contents.len(), world.size(path)) {
            world.after(write_of(step))
        } else {
            world
        },
        StepView::Dir { path } => world.after(ActionView::CreateDir { path }),
    }
}

/// The world after the steps from index `i` on were taken in `world`, one
/// after the other, and the search path set where the staging sets it.
pub open spec fn world_from(state: StagingView, i: int, world: World) -> World
    decreases state.steps.len() - i,
{
    if 0 <= i < state.steps.len() {
        world_from(state, i + 1, step_world(state.steps[i], world))
    } else {
        match state.search_path {
            Some(value) => World { search_path: Some(value), ..world },
            None => world,
        }
    }
}

/// The actions that take the steps from index `i` on in `world`, and set
/// the search path where the staging sets it.
pub open spec fn actions_from(state: StagingView, i: int, world: World) -> Seq<ActionView>
    decreases state.steps.len() - i,
{
    if 0 <= i < state.steps.len() {
        step_actions(state.steps[i], world) + actions_from(
            state,
            i + 1,
            step_world(state.steps[i], world),
        )
    } else {
        match state.search_path {
            Some(value) => seq![ActionView::SetSearchPath { value }],
            None => Seq::empty(),
        }
    }
}

/// The world in which the steps are taken: `world`, in which the staging
/// directory was created where it was missing.
pub open spec fn prepared(state: StagingView, world: World) -> World {
    if world.dirs.contains(state.root) {
        world
    } else {
        world.after(ActionView::CreateDir { path: state.root })
    }
}

/// The actions that come before the steps: the staging directory is looked
/// for, and created where it is missing.
pub open spec fn opening(state: StagingView, world: World) -> Seq<ActionView> {
    if world.dirs.contains(state.root) {
        seq![ActionView::CheckDir { path: state.root }]
    } else {
        seq![ActionView::CheckDir { path: state.root }, ActionView::CreateDir { path: state.root }]
    }
}

/// What the steps do to a world does not depend on the phase.
proof fn same_steps_same_world(a: StagingView, b: StagingView, i: int, world: World)
    requires
        a.steps == b.steps,
        a.search_path == b.search_path,
    ensures
        world_from(a, i, world) == world_from(b, i, world),
        actions_from(a, i, world) == actions_from(b, i, world),
    decreases a.steps.len() - i,
{
    if 0 <= i < a.steps.len() {
        same_steps_same_world(a, b, i + 1, step_world(a.steps[i], world));
    }
}

/// From the phase in which step `i` is taken, a staging runs through the
/// steps that are left, one after the other and whatever fails, and
/// finishes.
pub proof fn run_takes_steps(state: StagingView, i: int, world: World, limit: nat)
    requires
        state.wf(),
        0 <= i <= state.steps.len(),
        state.phase == state.phase_at(i),
        limit >= 2 * (state.steps.len() - i) + 1,
    ensures
        run(state, world, limit) == (Run {
            state: state.at(Phase::Finished),
            world: world_from(state, i, world),
            actions: actions_from(state, i, world),
        }),
    decreases state.steps.len() - i,
{
    reveal_with_fuel(run, 3);
    let done = state.at(Phase::Finished);
    if i == state.steps.len() {
        if state.search_path is Some {
            let action = state.pending();
            assert(state.next(world.answer(action)) == done);
            assert(run(state, world, limit).actions =~= actions_from(state, i, world));
        } else {
            assert(state == done);
        }
    } else {
        let step = state.steps[i];
        let then = state.at(state.phase_at(i + 1));
        let after = step_world(step, world);
        assert(then.wf());
        assert(then.phase_at(i + 1) == state.phase_at(i + 1));
        assert(then.at(Phase::Finished) == done);
        same_steps_same_world(then, state, i + 1, after);
        match step {
            StepView::File { path, contents, .. } => {
                if stale(contents.len(), world.size(path)) {
                    let writing = state.at(Phase::Writing(i as usize));
                    assert(state.next(world.answer(state.pending())) == writing);
                    assert(writing.next(world.answer(writing.pending())) == then);
                    run_takes_steps(then, i + 1, after, (limit - 2) as nat);
                } else {
                    assert(state.next(world.answer(state.pending())) == then);
                    run_takes_steps(then, i + 1, after, (limit - 1) as nat);
                }
            },
            StepView::Dir { path } => {
                assert(state.next(world.answer(state.pending())) == then);
                run_takes_steps(then, i + 1, after, (limit - 1) as nat);
            },
        }
        assert(run(state, world, limit).actions =~= actions_from(state, i, world));
    }
}

/// A staging that is carried out from its beginning looks for its
/// directory, creates it where it is missing, takes every step in order,
/// whatever fails, and finishes.
pub proof fn stage_takes_every_step(state: StagingView, world: World)
    requires
        state.wf(),
        state.phase == Phase::CheckingRoot,
    ensures
        stage(state, world) == (Run {
            state: state.at(Phase::Finished),
            world: world_from(state, 0, prepared(state, world)),
            actions: opening(state, world) + actions_from(state, 0, prepared(state, world)),
        }),
{
    reveal_with_fuel(run, 3);
    let limit = 2 * state.steps.len() + 3;
    let first = state.at(state.phase_at(0));
    let ready = prepared(state, world);
    assert(first.wf());
    assert(first.phase_at(0) == state.phase_at(0));
    assert(first.at(Phase::Finished) == state.at(Phase::Finished));
    same_steps_same_world(first, state, 0, ready);
    if world.dirs.contains(state.root) {
        assert(state.next(world.answer(state.pending())) == first);
        run_takes_steps(first, 0, ready, (limit - 1) as nat);
    } else {
        let creating = state.at(Phase::CreatingRoot);
        assert(state.next(world.answer(state.pending())) == creating);
        assert(creating.next(world.answer(creating.pending())) == first);
        run_takes_steps(first, 0, ready, (limit - 2) as nat);
    }
    assert(stage(state, world).actions =~= opening(state, world) + actions_from(state, 0, ready));
}

} // verus!
