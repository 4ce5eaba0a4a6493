//! The order of extraction: a bundle laid out as the list of the steps that
//! stage it, each with the full path that it works on.

use crate::assets::{AssetDir, DirView, FileView};
use crate::paths::{join, joined, joined_is_faithful, lies_below};
use crate::platform::Platform;
use vstd::prelude::*;

verus! {

/// What a step is.
pub enum StepView {
    /// Bring the file at `path` up to date with `contents`, the bytes of
    /// the bundled file `source`.
    File { path: Seq<char>, source: Seq<char>, contents: Seq<u8> },
    /// Make sure that the directory at `path` exists.
    Dir { path: Seq<char> },
}

/// One step of an extraction.
#[derive(Debug, PartialEq, Eq)]
pub enum Step {
    /// Bring the file at `path` up to date with `contents`, the bytes of
    /// the bundled file `source`.
    File { path: String, source: String, contents: Vec<u8> },
    /// Make sure that the directory at `path` exists.
    Dir { path: String },
}

impl View for Step {
    type V = StepView;

    open spec fn view(&self) -> StepView {
        match self {
            Step::File { path, source, contents } => StepView::File {
                path: path@,
                source: source@,
                contents: contents@,
            },
            Step::Dir { path } => StepView::Dir { path: path@ },
        }
    }
}

/// The views of a list of steps.
pub open spec fn steps_view(steps: Seq<Step>) -> Seq<StepView> {
    Seq::new(steps.len(), |i: int| steps[i]@)
}

/// The step that stages `file` below `root`.
pub open spec fn file_step(platform: Platform, root: Seq<char>, file: FileView) -> StepView {
    StepView::File {
        path: joined(platform, root, file.path),
        source: file.path,
        contents: file.contents,
    }
}

/// The step that creates the directory of `dir` below `root`.
pub open spec fn dir_step(platform: Platform, root: Seq<char>, dir: DirView) -> StepView {
    StepView::Dir { path: joined(platform, root, dir.path) }
}

/// The steps that stage `files`, in their order.
pub open spec fn file_steps(platform: Platform, root: Seq<char>, files: Seq<FileView>) -> Seq<
    StepView,
> {
    Seq::new(files.len(), |i: int| file_step(platform, root, files[i]))
}

/// The steps that stage `dir` below `root`: first the files of `dir`
/// itself, then each sub-directory in turn. Every path is taken from
/// `root`, at whatever depth the file or directory lies.
pub open spec fn plan(platform: Platform, root: Seq<char>, dir: DirView) -> Seq<StepView>
    decreases dir,
{
    file_steps(platform, root, dir.files) + sub_plans(platform, root, dir.dirs)
}

/// The steps that stage the directories `dirs` one after the other: each is
/// created, and then staged as `plan` says.
pub open spec fn sub_plans(platform: Platform, root: Seq<char>, dirs: Seq<DirView>) -> Seq<
    StepView,
>
    decreases dirs,
{
    if dirs.len() == 0 {
        Seq::empty()
    } else {
        sub_plans(platform, root, dirs.drop_last()) + seq![dir_step(platform, root, dirs.last())]
            + plan(platform, root, dirs.last())
    }
}

/// Whether `step` stages a file or creates a sub-directory that `dir`
/// holds, at any depth.
pub open spec fn stages_part_of(
    platform: Platform,
    root: Seq<char>,
    dir: DirView,
    step: StepView,
) -> bool {
    ||| exists|file: FileView| #[trigger]
        dir.holds_file(file) && step == file_step(platform, root, file)
    ||| exists|sub: DirView| #[trigger] dir.holds_dir(sub) && step == dir_step(platform, root, sub)
}

/// The steps of a list of directories hold the steps of each of them.
proof fn sub_plans_cover(
    platform: Platform,
    root: Seq<char>,
    dirs: Seq<DirView>,
    k: int,
    step: StepView,
)
    requires
        0 <= k < dirs.len(),
        step == dir_step(platform, root, dirs[k]) || plan(platform, root, dirs[k]).contains(step),
    ensures
        sub_plans(platform, root, dirs).contains(step),
    decreases dirs.len(),
{
    let before = sub_plans(platform, root, dirs.drop_last());
    let made = seq![dir_step(platform, root, dirs.last())];
    let inside = plan(platform, root, dirs.last());
    let all = sub_plans(platform, root, dirs);
    assert(all == before + made + inside);
    if k < dirs.len() - 1 {
        assert(dirs.drop_last()[k] == dirs[k]);
        sub_plans_cover(platform, root, dirs.drop_last(), k, step);
        let at = choose|at: int| 0 <= at < before.len() && before[at] == step;
        assert(all[at] == step);
    } else if step == dir_step(platform, root, dirs[k]) {
        assert(all[before.len() as int] == step);
    } else {
        let at = choose|at: int| 0 <= at < inside.len() && inside[at] == step;
        assert(all[before.len() + 1 + at] == step);
    }
}

/// A step of a list of directories creates one of them or is a step of one
/// of them.
proof fn sub_plans_uncover(platform: Platform, root: Seq<char>, dirs: Seq<DirView>, step: StepView)
    requires
        sub_plans(platform, root, dirs).contains(step),
    ensures
        exists|k: int|
            0 <= k < dirs.len() && (step == dir_step(platform, root, #[trigger] dirs[k]) || plan(
                platform,
                root,
                dirs[k],
            ).contains(step)),
    decreases dirs.len(),
{
    let all = sub_plans(platform, root, dirs);
    let at = choose|at: int| 0 <= at < all.len() && all[at] == step;
    if dirs.len() > 0 {
        let before = sub_plans(platform, root, dirs.drop_last());
        let made = seq![dir_step(platform, root, dirs.last())];
        let inside = plan(platform, root, dirs.last());
        assert(all == before + made + inside);
        let last = dirs.len() - 1;
        if at < before.len() {
            assert(before[at] == step);
            sub_plans_uncover(platform, root, dirs.drop_last(), step);
            let k = choose|k: int|
                0 <= k < dirs.drop_last().len() && (step == dir_step(
                    platform,
                    root,
                    #[trigger] dirs.drop_last()[k],
                ) || plan(platform, root, dirs.drop_last()[k]).contains(step));
            assert(dirs.drop_last()[k] == dirs[k]);
        } else if at == before.len() {
            assert(step == dir_step(platform, root, dirs[last]));
        } else {
            assert(inside[at - before.len() - 1] == step);
            assert(plan(platform, root, dirs[last]).contains(step));
        }
    }
}

/// The steps of a bundle stage every file that it holds and create every
/// sub-directory that it holds, at whatever depth and whether or not the
/// sub-directory holds a file.
pub proof fn plan_covers_bundle(platform: Platform, root: Seq<char>, dir: DirView, step: StepView)
    requires
        stages_part_of(platform, root, dir, step),
    ensures
        plan(platform, root, dir).contains(step),
    decreases dir,
{
    let own = file_steps(platform, root, dir.files);
    let below = sub_plans(platform, root, dir.dirs);
    let all = plan(platform, root, dir);
    if exists|file: FileView| #[trigger]
        dir.holds_file(file) && step == file_step(platform, root, file) {
        let file = choose|file: FileView| #[trigger]
            dir.holds_file(file) && step == file_step(platform, root, file);
        if dir.files.contains(file) {
            let at = choose|at: int| 0 <= at < dir.files.len() && dir.files[at] == file;
            assert(all[at] == own[at]);
        } else {
            let k = choose|k: int|
                0 <= k < dir.dirs.len() && (#[trigger] dir.dirs[k]).holds_file(file);
            plan_covers_bundle(platform, root, dir.dirs[k], step);
            sub_plans_cover(platform, root, dir.dirs, k, step);
            let at = choose|at: int| 0 <= at < below.len() && below[at] == step;
            assert(all[own.len() + at] == step);
        }
    } else {
        let sub = choose|sub: DirView| #[trigger]
            dir.holds_dir(sub) && step == dir_step(platform, root, sub);
        let k = choose|k: int|
            0 <= k < dir.dirs.len() && ((#[trigger] dir.dirs[k]) == sub || dir.dirs[k].holds_dir(
                sub,
            ));
        if dir.dirs[k] != sub {
            assert(stages_part_of(platform, root, dir.dirs[k], step));
            plan_covers_bundle(platform, root, dir.dirs[k], step);
        }
        sub_plans_cover(platform, root, dir.dirs, k, step);
        let at = choose|at: int| 0 <= at < below.len() && below[at] == step;
        assert(all[own.len() + at] == step);
    }
}

/// The steps of a bundle stage and create nothing but what the bundle
/// holds.
pub proof fn plan_stays_in_bundle(platform: Platform, root: Seq<char>, dir: DirView, step: StepView)
    requires
        plan(platform, root, dir).contains(step),
    ensures
        stages_part_of(platform, root, dir, step),
    decreases dir,
{
    let own = file_steps(platform, root, dir.files);
    let below = sub_plans(platform, root, dir.dirs);
    let all = plan(platform, root, dir);
    let at = choose|at: int| 0 <= at < all.len() && all[at] == step;
    if at < own.len() {
        assert(own[at] == step);
        assert(dir.files.contains(dir.files[at]));
        assert(dir.holds_file(dir.files[at]));
    } else {
        assert(below[at - own.len()] == step);
        sub_plans_uncover(platform, root, dir.dirs, step);
        let k = choose|k: int|
            0 <= k < dir.dirs.len() && (step == dir_step(platform, root, #[trigger] dir.dirs[k])
                || plan(platform, root, dir.dirs[k]).contains(step));
        if step == dir_step(platform, root, dir.dirs[k]) {
            assert(dir.holds_dir(dir.dirs[k]));
        } else {
            plan_stays_in_bundle(platform, root, dir.dirs[k], step);
            if exists|file: FileView| #[trigger]
                dir.dirs[k].holds_file(file) && step == file_step(platform, root, file) {
                let file = choose|file: FileView| #[trigger]
                    dir.dirs[k].holds_file(file) && step == file_step(platform, root, file);
                assert(dir.holds_file(file));
            } else {
                let sub = choose|sub: DirView| #[trigger]
                    dir.dirs[k].holds_dir(sub) && step == dir_step(platform, root, sub);
                assert(dir.holds_dir(sub));
            }
        }
    }
}

/// Steps that stage a file at one path stage the same bundled file with
/// the same contents there.
pub open spec fn unambiguous(steps: Seq<StepView>) -> bool {
    forall|a: int, b: int|
        0 <= a < steps.len() && 0 <= b < steps.len() && steps[a] is File && steps[b] is File
            && steps[a]->File_path == steps[b]->File_path ==> steps[a] == steps[b]
}

/// The path that a step works on.
pub open spec fn step_path(step: StepView) -> Seq<char> {
    match step {
        StepView::File { path, .. } => path,
        StepView::Dir { path } => path,
    }
}

/// Every step of a bundle works below the root that the bundle is staged
/// at, the steps of its sub-directories too.
pub proof fn plan_stays_below_root(platform: Platform, root: Seq<char>, dir: DirView, j: int)
    requires
        0 <= j < plan(platform, root, dir).len(),
    ensures
        lies_below(step_path(plan(platform, root, dir)[j]), root),
{
    let step = plan(platform, root, dir)[j];
    plan_stays_in_bundle(platform, root, dir, step);
    if exists|file: FileView| #[trigger]
        dir.holds_file(file) && step == file_step(platform, root, file) {
        let file = choose|file: FileView| #[trigger]
            dir.holds_file(file) && step == file_step(platform, root, file);
        joined_is_faithful(platform, root, file.path, file.path);
    } else {
        let sub = choose|sub: DirView| #[trigger]
            dir.holds_dir(sub) && step == dir_step(platform, root, sub);
        joined_is_faithful(platform, root, sub.path, sub.path);
    }
}

/// The steps of an unambiguous bundle are unambiguous.
pub proof fn plan_is_unambiguous(platform: Platform, root: Seq<char>, dir: DirView)
    requires
        dir.unambiguous(),
    ensures
        unambiguous(plan(platform, root, dir)),
{
    let steps = plan(platform, root, dir);
    assert forall|a: int, b: int|
        0 <= a < steps.len() && 0 <= b < steps.len() && steps[a] is File && steps[b] is File
            && steps[a]->File_path == steps[b]->File_path implies steps[a] == steps[b] by {
        plan_stays_in_bundle(platform, root, dir, steps[a]);
        plan_stays_in_bundle(platform, root, dir, steps[b]);
        let fa = choose|file: FileView| #[trigger]
            dir.holds_file(file) && steps[a] == file_step(platform, root, file);
        let fb = choose|file: FileView| #[trigger]
            dir.holds_file(file) && steps[b] == file_step(platform, root, file);
        joined_is_faithful(platform, root, fa.path, fb.path);
    }
}

/// A copy of `bytes`.
pub(crate) fn clone_bytes(bytes: &Vec<u8>) -> (copy: Vec<u8>)
    ensures
        copy@ == bytes@,
{
    let copy = bytes.clone();
    assert(copy@ =~= bytes@);
    copy
}

/// Appends to `out` the steps that stage `dir` below `root`.
pub fn collect(platform: Platform, root: &str, dir: &AssetDir, out: &mut Vec<Step>)
    ensures
        steps_view(final(out)@) == steps_view(old(out)@) + plan(platform, root@, dir@),
    decreases dir,
{
    let ghost before = steps_view(out@);
    proof {
        dir.view_unfolds();
    }
    let mut i: usize = 0;
    while i < dir.files.len()
        invariant
            i <= dir.files.len(),
            steps_view(out@) == before + file_steps(platform, root@, dir@.files.take(i as int)),
        decreases dir.files.len() - i,
    {
        let file = &dir.files[i];
        let ghost prev = out@;
        out.push(
            Step::File {
                path: join(platform, root, file.path.as_str()),
                source: file.path.clone(),
                contents: clone_bytes(&file.contents),
            },
        );
        proof {
            assert(dir@.files[i as int] == file@);
            assert(steps_view(out@) =~= steps_view(prev).push(file_step(platform, root@, file@)));
            assert(file_steps(platform, root@, dir@.files.take(i + 1)) =~= file_steps(
                platform,
                root@,
                dir@.files.take(i as int),
            ).push(file_step(platform, root@, file@)));
        }
        i = i + 1;
    }
    assert(dir@.files.take(i as int) =~= dir@.files);
    let ghost files_done = steps_view(out@);
    let mut k: usize = 0;
    assert(dir@.dirs.take(0) =~= Seq::<DirView>::empty());
    while k < dir.dirs.len()
        invariant
            k <= dir.dirs.len(),
            dir@.dirs.len() == dir.dirs.len(),
            forall|j: int| 0 <= j < dir.dirs.len() ==> dir@.dirs[j] == dir.dirs[j]@,
            steps_view(out@) == files_done + sub_plans(platform, root@, dir@.dirs.take(k as int)),
        decreases dir.dirs.len() - k,
    {
        let sub = &dir.dirs[k];
        let ghost prev = out@;
        out.push(Step::Dir { path: join(platform, root, sub.path.as_str()) });
        let ghost mid = out@;
        proof {
            assert(steps_view(mid) =~= steps_view(prev).push(dir_step(platform, root@, sub@)));
        }
        collect(platform, root, sub, out);
        proof {
            let next = dir@.dirs.take(k + 1);
            assert(dir@.dirs[k as int] == sub@);
            assert(next.drop_last() =~= dir@.dirs.take(k as int));
            assert(next.last() == sub@);
        }
        k = k + 1;
    }
    assert(dir@.dirs.take(k as int) =~= dir@.dirs);
}

} // verus!
