//! What holds of every staging that is carried out, whatever lies on disk
//! before it and whichever of its actions fail.

use crate::assets::{DirView, FileView};
use crate::paths::{joined, lies_below, staging_dir_of};
use crate::plan::{
    dir_step, file_step, plan_covers_bundle, plan_is_unambiguous, plan_stays_below_root,
    plan_stays_in_bundle, step_path, unambiguous, StepView,
};
use crate::platform::{Group, Platform};
use crate::search_path::appended;
use crate::staging::{stale, write_of, ActionView, Phase, StagingView};
use crate::world::{
    actions_from, opening, prepared, stage, stage_takes_every_step, step_actions, step_world,
    world_from, World,
};
use vstd::prelude::*;

verus! {

/// Every file of `steps` lies in `world` with the length of its contents.
pub open spec fn current(steps: Seq<StepView>, world: World) -> bool {
    forall|j: int|
        0 <= j < steps.len() && steps[j] is File ==> world.size((#[trigger] steps[j])->File_path)
            == Some(steps[j]->contents.len() as u64)
}

/// Every file of `steps` can be written in `world`.
pub open spec fn writable(steps: Seq<StepView>, world: World) -> bool {
    forall|j: int|
        0 <= j < steps.len() && steps[j] is File ==> !world.blocked.contains(
            (#[trigger] steps[j])->File_path,
        )
}

/// Where `value` is given, the last of `actions` sets the search path to
/// it; no other of `actions` sets the search path.
pub open spec fn sets_search_path_last(actions: Seq<ActionView>, value: Option<Seq<char>>) -> bool {
    &&& value matches Some(v) ==> actions.len() > 0 && actions.last() == (
    ActionView::SetSearchPath { value: v })
    &&& forall|k: int|
        0 <= k < actions.len() && #[trigger] actions[k] is SetSearchPath ==> value is Some && k
            == actions.len() - 1
}

/// One if `action` writes the file at `p`, zero if not.
pub open spec fn writes_at(action: ActionView, p: Seq<char>) -> nat {
    if action is WriteFile && action->WriteFile_path == p {
        1
    } else {
        0
    }
}

/// The number of `actions` that write the file at `p`.
pub open spec fn writes_to(actions: Seq<ActionView>, p: Seq<char>) -> nat
    decreases actions.len(),
{
    if actions.len() == 0 {
        0
    } else {
        writes_to(actions.drop_last(), p) + writes_at(actions.last(), p)
    }
}

/// One of `steps` creates the directory at `p`.
pub open spec fn creates_dir(steps: Seq<StepView>, p: Seq<char>) -> bool {
    exists|j: int| 0 <= j < steps.len() && (#[trigger] steps[j]) is Dir && steps[j]->Dir_path == p
}

/// One of `steps` stages a file at `p`.
pub open spec fn stages_file(steps: Seq<StepView>, p: Seq<char>) -> bool {
    exists|j: int|
        0 <= j < steps.len() && (#[trigger] steps[j]) is File && steps[j]->File_path == p
}

/// None of `actions` writes a file.
pub open spec fn no_writes(actions: Seq<ActionView>) -> bool {
    forall|k: int| 0 <= k < actions.len() ==> !(#[trigger] actions[k] is WriteFile)
}

/// The steps take nothing away: what lies on disk before them lies there
/// after them, and what was blocked stays blocked.
proof fn steps_keep_what_exists(state: StagingView, i: int, world: World)
    ensures
        world_from(state, i, world).blocked == world.blocked,
        forall|p: Seq<char>|
            world.files.dom().contains(p) ==> #[trigger] world_from(
                state,
                i,
                world,
            ).files.dom().contains(p),
        forall|p: Seq<char>|
            world.dirs.contains(p) ==> #[trigger] world_from(state, i, world).dirs.contains(p),
    decreases state.steps.len() - i,
{
    if 0 <= i < state.steps.len() {
        steps_keep_what_exists(state, i + 1, step_world(state.steps[i], world));
    }
}

/// A file that lies at `p` with the length that every step from `i` on
/// has for `p` keeps that length through these steps.
proof fn steps_keep_length(state: StagingView, i: int, world: World, p: Seq<char>, len: nat)
    requires
        0 <= i,
        len <= u64::MAX,
        world.size(p) == Some(len as u64),
        forall|k: int|
            i <= k < state.steps.len() && state.steps[k] is File && (
            #[trigger] state.steps[k])->File_path == p ==> state.steps[k]->contents.len() == len,
    ensures
        world_from(state, i, world).size(p) == Some(len as u64),
    decreases state.steps.len() - i,
{
    if i < state.steps.len() {
        let then = step_world(state.steps[i], world);
        assert(then.size(p) == Some(len as u64));
        steps_keep_length(state, i + 1, then, p, len);
    }
}

/// After the steps from `i` on, the file of each of them lies on disk,
/// unless its path is blocked.
proof fn steps_put_files(state: StagingView, i: int, world: World, j: int)
    requires
        0 <= i <= j < state.steps.len(),
        state.steps[j] is File,
        !world.blocked.contains(state.steps[j]->File_path),
    ensures
        world_from(state, i, world).files.dom().contains(state.steps[j]->File_path),
    decreases state.steps.len() - i,
{
    if i < j {
        steps_put_files(state, i + 1, step_world(state.steps[i], world), j);
    } else {
        steps_keep_what_exists(state, j + 1, step_world(state.steps[j], world));
    }
}

/// After the steps from `i` on, the directory of each of them lies on
/// disk, unless its path is blocked.
proof fn steps_put_dirs(state: StagingView, i: int, world: World, j: int)
    requires
        0 <= i <= j < state.steps.len(),
        state.steps[j] is Dir,
        !world.blocked.contains(state.steps[j]->Dir_path),
    ensures
        world_from(state, i, world).dirs.contains(state.steps[j]->Dir_path),
    decreases state.steps.len() - i,
{
    if i < j {
        steps_put_dirs(state, i + 1, step_world(state.steps[i], world), j);
    } else {
        steps_keep_what_exists(state, j + 1, step_world(state.steps[j], world));
    }
}

/// Where the steps are unambiguous, the file of each step from `i` on has
/// the length of its contents after them, unless its path is blocked.
proof fn steps_put_lengths(state: StagingView, i: int, world: World, j: int)
    requires
        state.wf(),
        unambiguous(state.steps),
        0 <= i <= j < state.steps.len(),
        state.steps[j] is File,
        !world.blocked.contains(state.steps[j]->File_path),
    ensures
        world_from(state, i, world).size(state.steps[j]->File_path) == Some(
            state.steps[j]->contents.len() as u64,
        ),
    decreases state.steps.len() - i,
{
    if i < j {
        steps_put_lengths(state, i + 1, step_world(state.steps[i], world), j);
    } else {
        let then = step_world(state.steps[j], world);
        let p = state.steps[j]->File_path;
        let len = state.steps[j]->contents.len();
        assert(then.size(p) == Some(len as u64));
        assert forall|k: int|
            j + 1 <= k < state.steps.len() && state.steps[k] is File && (
            #[trigger] state.steps[k])->File_path == p implies state.steps[k]->contents.len()
            == len by {
            assert(state.steps[k] == state.steps[j]);
        }
        steps_keep_length(state, j + 1, then, p, len);
    }
}

/// Where every file from step `i` on lies on disk with its length, the
/// steps from `i` on write nothing and leave the files as they are.
proof fn current_steps_write_nothing(state: StagingView, i: int, world: World)
    requires
        state.wf(),
        0 <= i,
        forall|j: int|
            i <= j < state.steps.len() && state.steps[j] is File ==> world.size(
                (#[trigger] state.steps[j])->File_path,
            ) == Some(state.steps[j]->contents.len() as u64),
    ensures
        world_from(state, i, world).files == world.files,
        no_writes(actions_from(state, i, world)),
    decreases state.steps.len() - i,
{
    if i < state.steps.len() {
        let step = state.steps[i];
        let then = step_world(step, world);
        assert(then.files == world.files);
        assert forall|j: int|
            i + 1 <= j < state.steps.len() && state.steps[j] is File implies then.size(
            (#[trigger] state.steps[j])->File_path,
        ) == Some(state.steps[j]->contents.len() as u64) by {
            assert(world.size(state.steps[j]->File_path) == Some(
                state.steps[j]->contents.len() as u64,
            ));
        }
        current_steps_write_nothing(state, i + 1, then);
        assert(no_writes(step_actions(step, world)));
    }
}

/// Where the steps are unambiguous, a file from step `i` on that is stale
/// is written by the steps from `i` on.
proof fn stale_step_is_written(state: StagingView, i: int, world: World, j: int)
    requires
        unambiguous(state.steps),
        0 <= i <= j < state.steps.len(),
        state.steps[j] is File,
        stale(state.steps[j]->contents.len(), world.size(state.steps[j]->File_path)),
    ensures
        actions_from(state, i, world).contains(write_of(state.steps[j])),
    decreases state.steps.len() - i,
{
    let step = state.steps[i];
    let first = step_actions(step, world);
    let rest = actions_from(state, i + 1, step_world(step, world));
    let wanted = write_of(state.steps[j]);
    if step is File && step->File_path == state.steps[j]->File_path {
        assert(step == state.steps[j]);
        assert((first + rest)[1] == wanted);
    } else {
        assert(i < j);
        assert(step_world(step, world).size(state.steps[j]->File_path) == world.size(
            state.steps[j]->File_path,
        ));
        stale_step_is_written(state, i + 1, step_world(step, world), j);
        let k = choose|k: int| 0 <= k < rest.len() && rest[k] == wanted;
        assert((first + rest)[first.len() + k] == wanted);
    }
}

/// Where the steps are unambiguous, the steps from `i` on write only
/// files that are stale, each with the contents of its step.
proof fn written_step_was_stale(state: StagingView, i: int, world: World, k: int)
    requires
        unambiguous(state.steps),
        0 <= i,
        0 <= k < actions_from(state, i, world).len(),
        actions_from(state, i, world)[k] is WriteFile,
    ensures
        exists|j: int|
            i <= j < state.steps.len() && (#[trigger] state.steps[j]) is File && write_of(
                state.steps[j],
            ) == actions_from(state, i, world)[k] && stale(
                state.steps[j]->contents.len(),
                world.size(state.steps[j]->File_path),
            ),
    decreases state.steps.len() - i,
{
    if i < state.steps.len() {
        let step = state.steps[i];
        let first = step_actions(step, world);
        let then = step_world(step, world);
        let rest = actions_from(state, i + 1, then);
        if k < first.len() {
            assert((first + rest)[k] == first[k]);
            assert(state.steps[i] == step);
        } else {
            assert((first + rest)[k] == rest[k - first.len()]);
            written_step_was_stale(state, i + 1, then, k - first.len());
            let j = choose|j: int|
                i + 1 <= j < state.steps.len() && (#[trigger] state.steps[j]) is File && write_of(
                    state.steps[j],
                ) == rest[k - first.len()] && stale(
                    state.steps[j]->contents.len(),
                    then.size(state.steps[j]->File_path),
                );
            if step is File && step->File_path == state.steps[j]->File_path {
                assert(step == state.steps[j]);
            } else {
                assert(then.size(state.steps[j]->File_path) == world.size(
                    state.steps[j]->File_path,
                ));
            }
        }
    }
}

/// The steps leave the search path alone; it is set after the last of them.
proof fn steps_keep_search_path(state: StagingView, i: int, world: World)
    ensures
        world_from(state, i, world).search_path == match state.search_path {
            Some(value) => Some(value),
            None => world.search_path,
        },
    decreases state.steps.len() - i,
{
    if 0 <= i < state.steps.len() {
        steps_keep_search_path(state, i + 1, step_world(state.steps[i], world));
    }
}

/// The actions that take the steps from `i` on set the search path at
/// most once, and after everything else.
proof fn steps_set_search_path_last(state: StagingView, i: int, world: World)
    requires
        0 <= i,
    ensures
        sets_search_path_last(actions_from(state, i, world), state.search_path),
    decreases state.steps.len() - i,
{
    if i < state.steps.len() {
        let first = step_actions(state.steps[i], world);
        let then = step_world(state.steps[i], world);
        let rest = actions_from(state, i + 1, then);
        steps_set_search_path_last(state, i + 1, then);
        after_more_actions(first, rest, state.search_path);
    }
}

/// Actions that leave the search path alone, put before actions that set
/// it last, give actions that set it last.
proof fn after_more_actions(
    first: Seq<ActionView>,
    rest: Seq<ActionView>,
    value: Option<Seq<char>>,
)
    requires
        forall|k: int| 0 <= k < first.len() ==> !(#[trigger] first[k] is SetSearchPath),
        sets_search_path_last(rest, value),
    ensures
        sets_search_path_last(first + rest, value),
{
    let all = first + rest;
    assert forall|k: int| 0 <= k < all.len() && #[trigger] all[k] is SetSearchPath implies value
        is Some && k == all.len() - 1 && all[k] == (ActionView::SetSearchPath {
        value: value->0,
    }) by {
        if k >= first.len() {
            assert(all[k] == rest[k - first.len()]);
        }
    }
    if value is Some {
        assert(all[all.len() - 1] == rest[rest.len() - 1]);
    }
}

/// Completeness, file by file: a staging that is carried out leaves a file
/// on disk for every file that it stages and that can be written, whatever
/// else fails; where its steps are unambiguous, the file has the length of
/// its contents. What lay on disk before lies there after: nothing is
/// removed.
pub proof fn every_file_is_staged(state: StagingView, world: World)
    requires
        state.wf(),
        state.phase == Phase::CheckingRoot,
    ensures
        forall|j: int|
            0 <= j < state.steps.len() && state.steps[j] is File && !world.blocked.contains(
                (#[trigger] state.steps[j])->File_path,
            ) ==> stage(state, world).world.files.dom().contains(state.steps[j]->File_path),
        unambiguous(state.steps) ==> forall|j: int|
            0 <= j < state.steps.len() && state.steps[j] is File && !world.blocked.contains(
                (#[trigger] state.steps[j])->File_path,
            ) ==> stage(state, world).world.size(state.steps[j]->File_path) == Some(
                state.steps[j]->contents.len() as u64,
            ),
        forall|p: Seq<char>|
            world.files.dom().contains(p) ==> #[trigger] stage(
                state,
                world,
            ).world.files.dom().contains(p),
        stage(state, world).world.blocked == world.blocked,
{
    stage_takes_every_step(state, world);
    let ready = prepared(state, world);
    assert forall|j: int|
        0 <= j < state.steps.len() && state.steps[j] is File && !world.blocked.contains(
            (#[trigger] state.steps[j])->File_path,
        ) implies stage(state, world).world.files.dom().contains(state.steps[j]->File_path) by {
        steps_put_files(state, 0, ready, j);
    }
    if unambiguous(state.steps) {
        assert forall|j: int|
            0 <= j < state.steps.len() && state.steps[j] is File && !world.blocked.contains(
                (#[trigger] state.steps[j])->File_path,
            ) implies stage(state, world).world.size(state.steps[j]->File_path) == Some(
            state.steps[j]->contents.len() as u64,
        ) by {
            steps_put_lengths(state, 0, ready, j);
        }
    }
    steps_keep_what_exists(state, 0, ready);
}

/// Directory mirroring: a staging that is carried out leaves on disk the
/// staging directory and the directory of every step that creates one,
/// each unless it is missing and cannot be created.
pub proof fn every_directory_is_created(state: StagingView, world: World)
    requires
        state.wf(),
        state.phase == Phase::CheckingRoot,
    ensures
        world.dirs.contains(state.root) || !world.blocked.contains(state.root) ==> stage(
            state,
            world,
        ).world.dirs.contains(state.root),
        forall|j: int|
            0 <= j < state.steps.len() && state.steps[j] is Dir && !world.blocked.contains(
                (#[trigger] state.steps[j])->Dir_path,
            ) ==> stage(state, world).world.dirs.contains(state.steps[j]->Dir_path),
{
    stage_takes_every_step(state, world);
    let ready = prepared(state, world);
    steps_keep_what_exists(state, 0, ready);
    assert forall|j: int|
        0 <= j < state.steps.len() && state.steps[j] is Dir && !world.blocked.contains(
            (#[trigger] state.steps[j])->Dir_path,
        ) implies stage(state, world).world.dirs.contains(state.steps[j]->Dir_path) by {
        steps_put_dirs(state, 0, ready, j);
    }
}

/// Idempotence: a staging that finds every one of its files on disk with
/// the length of its contents writes nothing, and leaves the files as they
/// are.
pub proof fn staged_bundle_is_left_alone(state: StagingView, world: World)
    requires
        state.wf(),
        state.phase == Phase::CheckingRoot,
        current(state.steps, world),
    ensures
        no_writes(stage(state, world).actions),
        stage(state, world).world.files == world.files,
{
    stage_takes_every_step(state, world);
    let ready = prepared(state, world);
    assert(ready.files == world.files);
    assert forall|j: int|
        0 <= j < state.steps.len() && state.steps[j] is File implies ready.size(
        (#[trigger] state.steps[j])->File_path,
    ) == Some(state.steps[j]->contents.len() as u64) by {
        assert(world.size(state.steps[j]->File_path) == Some(
            state.steps[j]->contents.len() as u64,
        ));
    }
    current_steps_write_nothing(state, 0, ready);
    let first = opening(state, world);
    let rest = actions_from(state, 0, ready);
    assert forall|k: int| 0 <= k < (first + rest).len() implies !(#[trigger] (first + rest)[k]
        is WriteFile) by {
        if k >= first.len() {
            assert((first + rest)[k] == rest[k - first.len()]);
        }
    }
}

/// Idempotence: where the steps of a staging are unambiguous and each of
/// its files can be written, carrying it out a second time, on what the
/// first time left, writes nothing.
pub proof fn second_staging_writes_nothing(state: StagingView, world: World)
    requires
        state.wf(),
        state.phase == Phase::CheckingRoot,
        unambiguous(state.steps),
        writable(state.steps, world),
    ensures
        current(state.steps, stage(state, world).world),
        no_writes(stage(state, stage(state, world).world).actions),
        stage(state, stage(state, world).world).world.files == stage(state, world).world.files,
{
    every_file_is_staged(state, world);
    staged_bundle_is_left_alone(state, stage(state, world).world);
}

/// Staleness detection: where the steps of a staging are unambiguous, a
/// file that is missing from the disk, or lies there with another length
/// than that of its contents, is written with its contents; unless it
/// cannot be written, it is written once and has the length of its
/// contents afterwards.
pub proof fn stale_file_is_rewritten(state: StagingView, world: World, j: int)
    requires
        state.wf(),
        state.phase == Phase::CheckingRoot,
        unambiguous(state.steps),
        0 <= j < state.steps.len(),
        state.steps[j] is File,
        stale(state.steps[j]->contents.len(), world.size(state.steps[j]->File_path)),
    ensures
        stage(state, world).actions.contains(write_of(state.steps[j])),
        !world.blocked.contains(state.steps[j]->File_path) ==> stage(state, world).world.size(
            state.steps[j]->File_path,
        ) == Some(state.steps[j]->contents.len() as u64),
        !world.blocked.contains(state.steps[j]->File_path) ==> writes_to(
            stage(state, world).actions,
            state.steps[j]->File_path,
        ) == 1,
{
    stage_takes_every_step(state, world);
    let ready = prepared(state, world);
    assert(ready.size(state.steps[j]->File_path) == world.size(state.steps[j]->File_path));
    stale_step_is_written(state, 0, ready, j);
    let first = opening(state, world);
    let rest = actions_from(state, 0, ready);
    if !world.blocked.contains(state.steps[j]->File_path) {
        steps_put_lengths(state, 0, ready, j);
        stale_step_is_written_once(state, 0, ready, j);
        opening_writes_nothing(state, world, state.steps[j]->File_path);
        writes_add(first, rest, state.steps[j]->File_path);
    }
    let wanted = write_of(state.steps[j]);
    let k = choose|k: int| 0 <= k < rest.len() && rest[k] == wanted;
    assert((first + rest)[first.len() + k] == wanted);
}

/// Where the steps of a staging are unambiguous, whatever is written is
/// the contents of a step whose file was missing from the disk or lay
/// there with another length: a file that is up to date is not touched.
pub proof fn only_stale_files_are_written(state: StagingView, world: World, k: int)
    requires
        state.wf(),
        state.phase == Phase::CheckingRoot,
        unambiguous(state.steps),
        0 <= k < stage(state, world).actions.len(),
        stage(state, world).actions[k] is WriteFile,
    ensures
        exists|j: int|
            0 <= j < state.steps.len() && (#[trigger] state.steps[j]) is File && write_of(
                state.steps[j],
            ) == stage(state, world).actions[k] && stale(
                state.steps[j]->contents.len(),
                world.size(state.steps[j]->File_path),
            ),
{
    stage_takes_every_step(state, world);
    let ready = prepared(state, world);
    let first = opening(state, world);
    let rest = actions_from(state, 0, ready);
    assert(k >= first.len()) by {
        if k < first.len() {
            assert((first + rest)[k] == first[k]);
        }
    }
    assert((first + rest)[k] == rest[k - first.len()]);
    written_step_was_stale(state, 0, ready, k - first.len());
    let j = choose|j: int|
        0 <= j < state.steps.len() && (#[trigger] state.steps[j]) is File && write_of(
            state.steps[j],
        ) == rest[k - first.len()] && stale(
            state.steps[j]->contents.len(),
            ready.size(state.steps[j]->File_path),
        );
    assert(ready.size(state.steps[j]->File_path) == world.size(state.steps[j]->File_path));
}

/// The search path after a staging that is carried out: the value that
/// the staging holds for it, or, where it holds none, what it was. It is
/// set once, by the last action of all, and nothing that fails on disk
/// keeps it from being set.
pub proof fn search_path_is_set(state: StagingView, world: World)
    requires
        state.wf(),
        state.phase == Phase::CheckingRoot,
    ensures
        stage(state, world).world.search_path == match state.search_path {
            Some(value) => Some(value),
            None => world.search_path,
        },
        sets_search_path_last(stage(state, world).actions, state.search_path),
{
    stage_takes_every_step(state, world);
    let ready = prepared(state, world);
    steps_keep_search_path(state, 0, ready);
    steps_set_search_path_last(state, 0, ready);
    after_more_actions(opening(state, world), actions_from(state, 0, ready), state.search_path);
}

/// The writes of two lists of actions, one after the other, are the
/// writes of the first and those of the second.
proof fn writes_add(first: Seq<ActionView>, rest: Seq<ActionView>, p: Seq<char>)
    ensures
        writes_to(first + rest, p) == writes_to(first, p) + writes_to(rest, p),
    decreases rest.len(),
{
    if rest.len() == 0 {
        assert(first + rest =~= first);
    } else {
        assert((first + rest).drop_last() =~= first + rest.drop_last());
        writes_add(first, rest.drop_last(), p);
    }
}

/// The writes of the actions that take one step.
proof fn writes_of_step(step: StepView, world: World, p: Seq<char>)
    ensures
        writes_to(step_actions(step, world), p) == if step is File && step->File_path == p
            && stale(step->contents.len(), world.size(p)) {
            1nat
        } else {
            0nat
        },
{
    let actions = step_actions(step, world);
    reveal_with_fuel(writes_to, 3);
    if actions.len() == 2 {
        assert(actions.drop_last() =~= seq![actions[0]]);
        assert(actions.drop_last().drop_last() =~= Seq::<ActionView>::empty());
    } else {
        assert(actions.drop_last() =~= Seq::<ActionView>::empty());
    }
}

/// The actions that come before the steps write nothing.
proof fn opening_writes_nothing(state: StagingView, world: World, p: Seq<char>)
    ensures
        writes_to(opening(state, world), p) == 0,
{
    let actions = opening(state, world);
    reveal_with_fuel(writes_to, 3);
    if actions.len() == 2 {
        assert(actions.drop_last() =~= seq![actions[0]]);
        assert(actions.drop_last().drop_last() =~= Seq::<ActionView>::empty());
    } else {
        assert(actions.drop_last() =~= Seq::<ActionView>::empty());
    }
}

/// A path at which no step from `i` on finds its file stale is not
/// written by these steps, and holds after them what it held before.
proof fn settled_path_is_left(state: StagingView, i: int, world: World, p: Seq<char>)
    requires
        0 <= i,
        forall|k: int|
            i <= k < state.steps.len() && (#[trigger] state.steps[k]) is File
                && state.steps[k]->File_path == p ==> !stale(
                state.steps[k]->contents.len(),
                world.size(p),
            ),
    ensures
        writes_to(actions_from(state, i, world), p) == 0,
        world_from(state, i, world).size(p) == world.size(p),
    decreases state.steps.len() - i,
{
    reveal_with_fuel(writes_to, 2);
    if i < state.steps.len() {
        let step = state.steps[i];
        let then = step_world(step, world);
        assert(then.size(p) == world.size(p));
        settled_path_is_left(state, i + 1, then, p);
        writes_of_step(step, world, p);
        writes_add(step_actions(step, world), actions_from(state, i + 1, then), p);
    } else {
        let actions = actions_from(state, i, world);
        if actions.len() > 0 {
            assert(actions.drop_last() =~= Seq::<ActionView>::empty());
        }
    }
}

/// Where the steps are unambiguous, a file from step `i` on that is stale
/// and can be written is written once by the steps from `i` on.
proof fn stale_step_is_written_once(state: StagingView, i: int, world: World, j: int)
    requires
        state.wf(),
        unambiguous(state.steps),
        0 <= i <= j < state.steps.len(),
        state.steps[j] is File,
        stale(state.steps[j]->contents.len(), world.size(state.steps[j]->File_path)),
        !world.blocked.contains(state.steps[j]->File_path),
    ensures
        writes_to(actions_from(state, i, world), state.steps[j]->File_path) == 1,
    decreases state.steps.len() - i,
{
    let p = state.steps[j]->File_path;
    let step = state.steps[i];
    let then = step_world(step, world);
    writes_of_step(step, world, p);
    writes_add(step_actions(step, world), actions_from(state, i + 1, then), p);
    if step is File && step->File_path == p {
        assert(step == state.steps[j]);
        assert(then.size(p) == Some(step->contents.len() as u64));
        assert forall|k: int|
            i + 1 <= k < state.steps.len() && (#[trigger] state.steps[k]) is File
                && state.steps[k]->File_path == p implies !stale(
            state.steps[k]->contents.len(),
            then.size(p),
        ) by {
            assert(state.steps[k] == state.steps[j]);
        }
        settled_path_is_left(state, i + 1, then, p);
    } else {
        assert(then.size(p) == world.size(p));
        stale_step_is_written_once(state, i + 1, then, j);
    }
}

/// The steps from `i` on put on disk nothing but their own files and
/// directories.
proof fn steps_add_only_their_own(state: StagingView, i: int, world: World)
    requires
        0 <= i,
    ensures
        forall|p: Seq<char>| #[trigger]
            world_from(state, i, world).dirs.contains(p) ==> world.dirs.contains(p) || creates_dir(
                state.steps,
                p,
            ),
        forall|p: Seq<char>| #[trigger]
            world_from(state, i, world).files.dom().contains(p) ==> world.files.dom().contains(p)
                || stages_file(state.steps, p),
    decreases state.steps.len() - i,
{
    if i < state.steps.len() {
        let step = state.steps[i];
        let then = step_world(step, world);
        steps_add_only_their_own(state, i + 1, then);
        assert forall|p: Seq<char>| #[trigger]
            world_from(state, i, world).dirs.contains(p) implies world.dirs.contains(p)
            || creates_dir(state.steps, p) by {
            if then.dirs.contains(p) && !world.dirs.contains(p) {
                assert(state.steps[i] is Dir && state.steps[i]->Dir_path == p);
            }
        }
        assert forall|p: Seq<char>| #[trigger]
            world_from(state, i, world).files.dom().contains(p) implies world.files.dom().contains(
            p,
        ) || stages_file(state.steps, p) by {
            if then.files.dom().contains(p) && !world.files.dom().contains(p) {
                assert(state.steps[i] is File && state.steps[i]->File_path == p);
            }
        }
    }
}

/// Steps that all fail leave the disk as it is.
proof fn blocked_steps_change_nothing(state: StagingView, i: int, world: World)
    requires
        0 <= i,
        forall|j: int|
            i <= j < state.steps.len() ==> world.blocked.contains(
                step_path(#[trigger] state.steps[j]),
            ),
    ensures
        world_from(state, i, world).files == world.files,
        world_from(state, i, world).dirs == world.dirs,
    decreases state.steps.len() - i,
{
    if i < state.steps.len() {
        let then = step_world(state.steps[i], world);
        assert(world.blocked.contains(step_path(state.steps[i])));
        assert(then == world);
        blocked_steps_change_nothing(state, i + 1, world);
    }
}

/// Directory mirroring, the other half: a staging that is carried out
/// puts on disk nothing but its own. A directory that lies on disk after
/// it lay there before, or is the staging directory, or is the directory
/// of one of its steps; a file that lies on disk after it lay there
/// before, or is the file of one of its steps.
pub proof fn nothing_else_appears(state: StagingView, world: World)
    requires
        state.wf(),
        state.phase == Phase::CheckingRoot,
    ensures
        forall|p: Seq<char>| #[trigger]
            stage(state, world).world.dirs.contains(p) ==> world.dirs.contains(p) || p
                == state.root || creates_dir(state.steps, p),
        forall|p: Seq<char>| #[trigger]
            stage(state, world).world.files.dom().contains(p) ==> world.files.dom().contains(p)
                || stages_file(state.steps, p),
{
    stage_takes_every_step(state, world);
    steps_add_only_their_own(state, 0, prepared(state, world));
}

/// A path at which no step finds its file stale is left alone: nothing is
/// written there, and it holds afterwards what it held before. So a file
/// that is up to date is not touched, and neither is a file that the
/// staging does not know.
pub proof fn settled_path_is_left_alone(state: StagingView, world: World, p: Seq<char>)
    requires
        state.wf(),
        state.phase == Phase::CheckingRoot,
        forall|k: int|
            0 <= k < state.steps.len() && (#[trigger] state.steps[k]) is File
                && state.steps[k]->File_path == p ==> !stale(
                state.steps[k]->contents.len(),
                world.size(p),
            ),
    ensures
        writes_to(stage(state, world).actions, p) == 0,
        stage(state, world).world.size(p) == world.size(p),
{
    stage_takes_every_step(state, world);
    let ready = prepared(state, world);
    assert(ready.size(p) == world.size(p));
    settled_path_is_left(state, 0, ready, p);
    opening_writes_nothing(state, world, p);
    writes_add(opening(state, world), actions_from(state, 0, ready), p);
}

/// Where neither the staging directory nor anything that the steps work
/// on can be created or written, a staging that is carried out leaves the
/// disk as it is, and sets the search path all the same.
pub proof fn failed_staging_changes_nothing_on_disk(state: StagingView, world: World)
    requires
        state.wf(),
        state.phase == Phase::CheckingRoot,
        world.blocked.contains(state.root),
        forall|j: int|
            0 <= j < state.steps.len() ==> world.blocked.contains(
                step_path(#[trigger] state.steps[j]),
            ),
    ensures
        stage(state, world).state.phase == Phase::Finished,
        stage(state, world).world.files == world.files,
        stage(state, world).world.dirs == world.dirs,
        stage(state, world).world.search_path == match state.search_path {
            Some(value) => Some(value),
            None => world.search_path,
        },
        sets_search_path_last(stage(state, world).actions, state.search_path),
{
    stage_takes_every_step(state, world);
    search_path_is_set(state, world);
    assert(prepared(state, world) == world);
    blocked_steps_change_nothing(state, 0, world);
}

/// A bundle that is staged from the beginning is mirrored on disk: below
/// the staging directory lies every file that the bundle holds, and every
/// sub-directory that it holds, with or without files in it, each at its
/// own path below the staging directory itself, at whatever depth the
/// bundle holds it, and each unless it cannot be written or created.
/// Nothing else appears: a directory that lies on disk afterwards lay
/// there before, or is the staging directory, or is a sub-directory that
/// the bundle holds; a file that lies on disk afterwards lay there before
/// or is a file that the bundle holds. The library bundle is then the last
/// entry of the search path, behind what was on the path; the path is left
/// alone for the documents.
pub proof fn bundle_is_mirrored(
    platform: Platform,
    group: Group,
    temp: Option<Seq<char>>,
    cwd: Seq<char>,
    search_path: Option<Seq<char>>,
    table: DirView,
    world: World,
)
    requires
        StagingView::begin(platform, group, temp, cwd, search_path, table).wf(),
    ensures
        ({
            let root = staging_dir_of(platform, group, temp, cwd);
            let end = stage(
                StagingView::begin(platform, group, temp, cwd, search_path, table),
                world,
            ).world;
            &&& world.dirs.contains(root) || !world.blocked.contains(root) ==> end.dirs.contains(
                root,
            )
            &&& forall|file: FileView| #[trigger]
                table.holds_file(file) && !world.blocked.contains(
                    joined(platform, root, file.path),
                ) ==> end.files.dom().contains(joined(platform, root, file.path))
            &&& forall|dir: DirView| #[trigger]
                table.holds_dir(dir) && !world.blocked.contains(joined(platform, root, dir.path))
                    ==> end.dirs.contains(joined(platform, root, dir.path))
            &&& forall|p: Seq<char>| #[trigger]
                end.dirs.contains(p) ==> world.dirs.contains(p) || p == root || exists|
                    dir: DirView,
                | #[trigger] table.holds_dir(dir) && p == joined(platform, root, dir.path)
            &&& forall|p: Seq<char>| #[trigger]
                end.files.dom().contains(p) ==> world.files.dom().contains(p) || exists|
                    file: FileView,
                | #[trigger] table.holds_file(file) && p == joined(platform, root, file.path)
            &&& end.search_path == match group {
                Group::Library => Some(appended(platform, search_path, root)),
                Group::Documents => world.search_path,
            }
        }),
{
    let state = StagingView::begin(platform, group, temp, cwd, search_path, table);
    let root = staging_dir_of(platform, group, temp, cwd);
    let end = stage(state, world).world;
    every_file_is_staged(state, world);
    every_directory_is_created(state, world);
    search_path_is_set(state, world);
    nothing_else_appears(state, world);
    assert forall|file: FileView| #[trigger]
        table.holds_file(file) && !world.blocked.contains(
            joined(platform, root, file.path),
        ) implies end.files.dom().contains(joined(platform, root, file.path)) by {
        let step = file_step(platform, root, file);
        plan_covers_bundle(platform, root, table, step);
        let j = choose|j: int| 0 <= j < state.steps.len() && state.steps[j] == step;
        assert(state.steps[j] is File);
    }
    assert forall|dir: DirView| #[trigger]
        table.holds_dir(dir) && !world.blocked.contains(
            joined(platform, root, dir.path),
        ) implies end.dirs.contains(joined(platform, root, dir.path)) by {
        let step = dir_step(platform, root, dir);
        plan_covers_bundle(platform, root, table, step);
        let j = choose|j: int| 0 <= j < state.steps.len() && state.steps[j] == step;
        assert(state.steps[j] is Dir);
    }
    assert forall|p: Seq<char>| #[trigger] end.dirs.contains(p) implies world.dirs.contains(p) || p
        == root || exists|dir: DirView| #[trigger]
        table.holds_dir(dir) && p == joined(platform, root, dir.path) by {
        if !world.dirs.contains(p) && p != root {
            let j = choose|j: int|
                0 <= j < state.steps.len() && (#[trigger] state.steps[j]) is Dir
                    && state.steps[j]->Dir_path == p;
            plan_stays_in_bundle(platform, root, table, state.steps[j]);
            let dir = choose|dir: DirView| #[trigger]
                table.holds_dir(dir) && state.steps[j] == dir_step(platform, root, dir);
            assert(table.holds_dir(dir) && p == joined(platform, root, dir.path));
        }
    }
    assert forall|p: Seq<char>| #[trigger]
        end.files.dom().contains(p) implies world.files.dom().contains(p) || exists|
        file: FileView,
    | #[trigger] table.holds_file(file) && p == joined(platform, root, file.path) by {
        if !world.files.dom().contains(p) {
            let j = choose|j: int|
                0 <= j < state.steps.len() && (#[trigger] state.steps[j]) is File
                    && state.steps[j]->File_path == p;
            plan_stays_in_bundle(platform, root, table, state.steps[j]);
            let file = choose|file: FileView| #[trigger]
                table.holds_file(file) && state.steps[j] == file_step(platform, root, file);
            assert(table.holds_file(file) && p == joined(platform, root, file.path));
        }
    }
}

/// The action that writes the bundled file `file` below `root`.
pub open spec fn write_of_file(platform: Platform, root: Seq<char>, file: FileView) -> ActionView {
    write_of(file_step(platform, root, file))
}

/// Idempotence and staleness detection, of a bundle that is unambiguous.
/// Each file that the bundle holds and that can be written has the length
/// of its contents once the bundle is staged. Each file that the bundle
/// holds and that is missing below the staging directory, or lies there
/// with another length than that of its contents, is written with its
/// contents, and once where it can be written. A file that the bundle
/// holds and that lies below the staging directory with the length of its
/// contents is not written and keeps its length. And where every file of
/// the bundle can be written, staging the bundle a second time, on what
/// the first time left, writes nothing.
pub proof fn bundle_is_refreshed(
    platform: Platform,
    group: Group,
    temp: Option<Seq<char>>,
    cwd: Seq<char>,
    search_path: Option<Seq<char>>,
    table: DirView,
    world: World,
)
    requires
        StagingView::begin(platform, group, temp, cwd, search_path, table).wf(),
        table.unambiguous(),
    ensures
        ({
            let root = staging_dir_of(platform, group, temp, cwd);
            let state = StagingView::begin(platform, group, temp, cwd, search_path, table);
            let once = stage(state, world);
            &&& forall|file: FileView| #[trigger]
                table.holds_file(file) && !world.blocked.contains(
                    joined(platform, root, file.path),
                ) ==> once.world.size(joined(platform, root, file.path)) == Some(
                    file.contents.len() as u64,
                )
            &&& forall|file: FileView| #[trigger]
                table.holds_file(file) && stale(
                    file.contents.len(),
                    world.size(joined(platform, root, file.path)),
                ) ==> once.actions.contains(write_of_file(platform, root, file)) && (
                !world.blocked.contains(joined(platform, root, file.path)) ==> writes_to(
                    once.actions,
                    joined(platform, root, file.path),
                ) == 1)
            &&& forall|file: FileView| #[trigger]
                table.holds_file(file) && !stale(
                    file.contents.len(),
                    world.size(joined(platform, root, file.path)),
                ) ==> writes_to(once.actions, joined(platform, root, file.path)) == 0
                    && once.world.size(joined(platform, root, file.path)) == world.size(
                    joined(platform, root, file.path),
                )
            &&& writable(state.steps, world) ==> no_writes(stage(state, once.world).actions)
        }),
{
    let root = staging_dir_of(platform, group, temp, cwd);
    let state = StagingView::begin(platform, group, temp, cwd, search_path, table);
    let once = stage(state, world);
    plan_is_unambiguous(platform, root, table);
    every_file_is_staged(state, world);
    if writable(state.steps, world) {
        second_staging_writes_nothing(state, world);
    }
    assert forall|file: FileView| #[trigger]
        table.holds_file(file) && !world.blocked.contains(
            joined(platform, root, file.path),
        ) implies once.world.size(joined(platform, root, file.path)) == Some(
        file.contents.len() as u64,
    ) by {
        let step = file_step(platform, root, file);
        plan_covers_bundle(platform, root, table, step);
        let j = choose|j: int| 0 <= j < state.steps.len() && state.steps[j] == step;
        assert(state.steps[j] is File);
    }
    assert forall|file: FileView| #[trigger]
        table.holds_file(file) && stale(
            file.contents.len(),
            world.size(joined(platform, root, file.path)),
        ) implies once.actions.contains(write_of_file(platform, root, file)) && (
    !world.blocked.contains(joined(platform, root, file.path)) ==> writes_to(
        once.actions,
        joined(platform, root, file.path),
    ) == 1) by {
        let step = file_step(platform, root, file);
        plan_covers_bundle(platform, root, table, step);
        let j = choose|j: int| 0 <= j < state.steps.len() && state.steps[j] == step;
        stale_file_is_rewritten(state, world, j);
    }
    assert forall|file: FileView| #[trigger]
        table.holds_file(file) && !stale(
            file.contents.len(),
            world.size(joined(platform, root, file.path)),
        ) implies writes_to(once.actions, joined(platform, root, file.path)) == 0
        && once.world.size(joined(platform, root, file.path)) == world.size(
        joined(platform, root, file.path),
    ) by {
        let p = joined(platform, root, file.path);
        let step = file_step(platform, root, file);
        plan_covers_bundle(platform, root, table, step);
        let j = choose|j: int| 0 <= j < state.steps.len() && state.steps[j] == step;
        assert forall|k: int|
            0 <= k < state.steps.len() && (#[trigger] state.steps[k]) is File
                && state.steps[k]->File_path == p implies !stale(
            state.steps[k]->contents.len(),
            world.size(p),
        ) by {
            assert(state.steps[k] == state.steps[j]);
        }
        settled_path_is_left_alone(state, world, p);
    }
}

/// Below a staging directory that is missing and cannot be created
/// nothing can be written or created either. A bundle that is staged
/// there leaves the disk as it is: nothing is staged. The staging runs to
/// its end all the same, and the library bundle is put on the search path
/// as its last entry.
pub proof fn nothing_is_staged_below_a_missing_directory(
    platform: Platform,
    group: Group,
    temp: Option<Seq<char>>,
    cwd: Seq<char>,
    search_path: Option<Seq<char>>,
    table: DirView,
    world: World,
)
    requires
        StagingView::begin(platform, group, temp, cwd, search_path, table).wf(),
        !world.dirs.contains(staging_dir_of(platform, group, temp, cwd)),
        world.closed_below(staging_dir_of(platform, group, temp, cwd)),
    ensures
        ({
            let root = staging_dir_of(platform, group, temp, cwd);
            let state = StagingView::begin(platform, group, temp, cwd, search_path, table);
            let end = stage(state, world);
            &&& end.state.phase == Phase::Finished
            &&& end.world.files == world.files
            &&& end.world.dirs == world.dirs
            &&& !end.world.dirs.contains(root)
            &&& end.world.search_path == match group {
                Group::Library => Some(appended(platform, search_path, root)),
                Group::Documents => world.search_path,
            }
            &&& sets_search_path_last(end.actions, state.search_path)
        }),
{
    let root = staging_dir_of(platform, group, temp, cwd);
    let state = StagingView::begin(platform, group, temp, cwd, search_path, table);
    assert(lies_below(root, root)) by {
        assert(root.subrange(0, root.len() as int) =~= root);
    }
    assert forall|j: int| 0 <= j < state.steps.len() implies world.blocked.contains(
        step_path(#[trigger] state.steps[j]),
    ) by {
        plan_stays_below_root(platform, root, table, j);
    }
    failed_staging_changes_nothing_on_disk(state, world);
}

} // verus!
