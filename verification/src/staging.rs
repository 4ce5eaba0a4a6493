//! The staging of one bundle, as a conversation: the library names the next
//! thing to do on disk or in the environment, the caller does it and
//! reports what came of it.

use crate::assets::{AssetDir, DirView};
use crate::paths::{staging_dir, staging_dir_of, text_of};
use crate::plan::{clone_bytes, collect, plan, steps_view, Step, StepView};
use crate::platform::{Group, Platform};
use crate::search_path::{append_search_path, appended};
use vstd::prelude::*;

verus! {

/// What an action is.
pub enum ActionView {
    CheckDir { path: Seq<char> },
    CreateDir { path: Seq<char> },
    Inspect { path: Seq<char> },
    WriteFile { path: Seq<char>, source: Seq<char>, contents: Seq<u8> },
    SetSearchPath { value: Seq<char> },
    Finish,
}

/// What the caller is asked to do next.
#[derive(Debug, PartialEq, Eq)]
pub enum Action {
    /// Report whether the directory at `path` exists: `Reply::Exists`.
    CheckDir { path: String },
    /// Create the directory at `path` with the directories above it, and
    /// report whether that succeeded: `Reply::Done`.
    CreateDir { path: String },
    /// Report the length in bytes of what lies at `path`, or that nothing
    /// does: `Reply::Size`.
    Inspect { path: String },
    /// Write `contents`, the bytes of the bundled file `source`, over the
    /// file at `path`, and report whether that succeeded: `Reply::Done`.
    WriteFile { path: String, source: String, contents: Vec<u8> },
    /// Set the library search path of the process to `value`, and report
    /// `Reply::Done`.
    SetSearchPath { value: String },
    /// Nothing is left to do.
    Finish,
}

impl View for Action {
    type V = ActionView;

    open spec fn view(&self) -> ActionView {
        match self {
            Action::CheckDir { path } => ActionView::CheckDir { path: path@ },
            Action::CreateDir { path } => ActionView::CreateDir { path: path@ },
            Action::Inspect { path } => ActionView::Inspect { path: path@ },
            Action::WriteFile { path, source, contents } => ActionView::WriteFile {
                path: path@,
                source: source@,
                contents: contents@,
            },
            Action::SetSearchPath { value } => ActionView::SetSearchPath { value: value@ },
            Action::Finish => ActionView::Finish,
        }
    }
}

/// What came of the action that was asked for.
#[derive(Clone, Copy, Debug, PartialEq, Eq)]
pub enum Reply {
    /// Whether the directory exists.
    Exists(bool),
    /// The length in bytes of what was found, or `None` where nothing was.
    Size(Option<u64>),
    /// Whether the action succeeded.
    Done(bool),
}

/// Where a staging stands: which action it waits on.
#[derive(Clone, Copy, Debug, PartialEq, Eq)]
pub enum Phase {
    /// Waiting to hear whether the staging directory exists.
    CheckingRoot,
    /// Waiting for the staging directory to be created.
    CreatingRoot,
    /// Waiting for the length of the file of the step with this index.
    Inspecting(usize),
    /// Waiting for the file of the step with this index to be written.
    Writing(usize),
    /// Waiting for the directory of the step with this index to be created.
    CreatingDir(usize),
    /// Waiting for the search path to be set.
    SettingSearchPath,
    /// Nothing is left to do.
    Finished,
}

/// Whether a file of `len` bytes has to be written where `found` was
/// found: where nothing was, or something of another length.
pub open spec fn stale(len: nat, found: Option<u64>) -> bool {
    match found {
        None => true,
        Some(n) => n != len,
    }
}

/// Decides whether a file of `len` bytes has to be written where `found`
/// was found.
pub fn needs_write(len: usize, found: Option<u64>) -> (write: bool)
    ensures
        write == stale(len as nat, found),
{
    match found {
        None => true,
        Some(n) => n != len as u64,
    }
}

/// The action that writes the file of the step `step`.
pub open spec fn write_of(step: StepView) -> ActionView {
    ActionView::WriteFile {
        path: step->File_path,
        source: step->source,
        contents: step->contents,
    }
}

/// What a staging is.
pub struct StagingView {
    /// The staging directory.
    pub root: Seq<char>,
    /// The steps that stage the bundle, in order.
    pub steps: Seq<StepView>,
    /// The value that the search path gets once the bundle is staged, for a
    /// bundle that is put on the search path.
    pub search_path: Option<Seq<char>>,
    /// The action that is waited on.
    pub phase: Phase,
}

impl StagingView {
    /// The steps and their files can be counted by the machine, and the
    /// phase agrees with the steps.
    pub open spec fn wf(self) -> bool {
        &&& self.steps.len() <= usize::MAX
        &&& forall|i: int|
            0 <= i < self.steps.len() && self.steps[i] is File
                ==> (#[trigger] self.steps[i])->contents.len() <= usize::MAX
        &&& match self.phase {
            Phase::Inspecting(i) | Phase::Writing(i) => i < self.steps.len()
                && self.steps[i as int] is File,
            Phase::CreatingDir(i) => i < self.steps.len() && self.steps[i as int] is Dir,
            Phase::SettingSearchPath => self.search_path is Some,
            _ => true,
        }
    }

    /// The phase in which the step with index `i` is taken, or, past the
    /// last step, the phase that follows the extraction.
    pub open spec fn phase_at(self, i: int) -> Phase {
        if 0 <= i < self.steps.len() && i <= usize::MAX {
            match self.steps[i] {
                StepView::File { .. } => Phase::Inspecting(i as usize),
                StepView::Dir { .. } => Phase::CreatingDir(i as usize),
            }
        } else if self.search_path is Some {
            Phase::SettingSearchPath
        } else {
            Phase::Finished
        }
    }

    /// This staging in another phase.
    pub open spec fn at(self, phase: Phase) -> StagingView {
        StagingView { phase, ..self }
    }

    /// The action that is waited on.
    pub open spec fn pending(self) -> ActionView {
        match self.phase {
            Phase::CheckingRoot => ActionView::CheckDir { path: self.root },
            Phase::CreatingRoot => ActionView::CreateDir { path: self.root },
            Phase::Inspecting(i) => ActionView::Inspect { path: self.steps[i as int]->File_path },
            Phase::Writing(i) => write_of(self.steps[i as int]),
            Phase::CreatingDir(i) => ActionView::CreateDir { path: self.steps[i as int]->Dir_path },
            Phase::SettingSearchPath => ActionView::SetSearchPath { value: self.search_path->0 },
            Phase::Finished => ActionView::Finish,
        }
    }

    /// The staging after `reply` has come in. A reply of a kind that does
    /// not answer the pending action changes nothing.
    ///
    /// The staging directory is created only where it is missing. A file
    /// is written where it is stale. Nothing that fails stops what follows:
    /// not a directory that could not be created, the staging directory
    /// included, and not a file that could not be written.
    pub open spec fn next(self, reply: Reply) -> StagingView {
        match (self.phase, reply) {
            (Phase::CheckingRoot, Reply::Exists(true)) => self.at(self.phase_at(0)),
            (Phase::CheckingRoot, Reply::Exists(false)) => self.at(Phase::CreatingRoot),
            (Phase::CreatingRoot, Reply::Done(_)) => self.at(self.phase_at(0)),
            (Phase::Inspecting(i), Reply::Size(found)) => if stale(
                self.steps[i as int]->contents.len(),
                found,
            ) {
                self.at(Phase::Writing(i))
            } else {
                self.at(self.phase_at(i + 1))
            },
            (Phase::Writing(i), Reply::Done(_)) => self.at(self.phase_at(i + 1)),
            (Phase::CreatingDir(i), Reply::Done(_)) => self.at(self.phase_at(i + 1)),
            (Phase::SettingSearchPath, Reply::Done(_)) => self.at(Phase::Finished),
            _ => self,
        }
    }

    /// The staging of `table` as it begins: nothing is known of the disk
    /// yet.
    pub open spec fn begin(
        platform: Platform,
        group: Group,
        temp: Option<Seq<char>>,
        cwd: Seq<char>,
        search_path: Option<Seq<char>>,
        table: DirView,
    ) -> StagingView {
        let root = staging_dir_of(platform, group, temp, cwd);
        StagingView {
            root,
            steps: plan(platform, root, table),
            search_path: match group {
                Group::Library => Some(appended(platform, search_path, root)),
                Group::Documents => None,
            },
            phase: Phase::CheckingRoot,
        }
    }
}

/// The staging of one bundle in progress.
pub struct Staging {
    root: String,
    steps: Vec<Step>,
    search_path: Option<String>,
    phase: Phase,
}

impl View for Staging {
    type V = StagingView;

    closed spec fn view(&self) -> StagingView {
        StagingView {
            root: self.root@,
            steps: steps_view(self.steps@),
            search_path: text_of(self.search_path),
            phase: self.phase,
        }
    }
}

fn clone_text(text: &String) -> (copy: String)
    ensures
        copy@ == text@,
{
    text.clone()
}

/// The files of steps that are held in memory can be counted.
proof fn steps_are_countable(steps: Vec<Step>)
    ensures
        steps_view(steps@).len() <= usize::MAX,
        forall|i: int|
            0 <= i < steps@.len() && steps_view(steps@)[i] is File ==> (#[trigger] steps_view(
                steps@,
            )[i])->contents.len() <= usize::MAX,
{
    assert(steps.len() == steps@.len());
    assert forall|i: int|
        0 <= i < steps@.len() && steps_view(steps@)[i] is File implies (#[trigger] steps_view(
        steps@,
    )[i])->contents.len() <= usize::MAX by {
        let bytes = steps@[i]->contents;
        assert(bytes.len() == bytes@.len());
    }
}

impl Staging {
    #[verifier::type_invariant]
    spec fn well_formed(self) -> bool {
        self@.wf()
    }

    /// Begins the staging of `table`, the bundle of `group`.
    ///
    /// `temp` is the value of the variable that `platform.temp_variable()`
    /// names, `search_path` the value of the library search path, each
    /// `None` where the variable is not set; `cwd` is the working
    /// directory.
    pub fn new(
        platform: Platform,
        group: Group,
        temp: Option<String>,
        cwd: &str,
        search_path: Option<String>,
        table: &AssetDir,
    ) -> (staging: Staging)
        ensures
            staging@ == StagingView::begin(
                platform,
                group,
                text_of(temp),
                cwd@,
                text_of(search_path),
                table@,
            ),
            staging@.wf(),
    {
        let root = staging_dir(platform, group, temp, cwd);
        let mut steps: Vec<Step> = Vec::new();
        collect(platform, root.as_str(), table, &mut steps);
        assert(steps_view(steps@) =~= plan(platform, root@, table@));
        let search_path = match group {
            Group::Library => Some(append_search_path(platform, search_path, root.as_str())),
            Group::Documents => None,
        };
        proof {
            steps_are_countable(steps);
        }
        Staging { root, steps, search_path, phase: Phase::CheckingRoot }
    }

    /// The staging directory.
    pub fn root(&self) -> (root: &String)
        ensures
            root@ == self@.root,
    {
        &self.root
    }

    /// Where the staging stands.
    pub fn phase(&self) -> (phase: Phase)
        ensures
            phase == self@.phase,
    {
        self.phase
    }

    /// The number of steps that stage the bundle.
    pub fn step_count(&self) -> (n: usize)
        ensures
            n == self@.steps.len(),
    {
        self.steps.len()
    }

    fn phase_at(&self, i: usize) -> (phase: Phase)
        requires
            i <= self@.steps.len(),
        ensures
            phase == self@.phase_at(i as int),
            self@.at(phase).wf(),
    {
        proof {
            use_type_invariant(self);
        }
        if i < self.steps.len() {
            match &self.steps[i] {
                Step::File { .. } => Phase::Inspecting(i),
                Step::Dir { .. } => Phase::CreatingDir(i),
            }
        } else if self.search_path.is_some() {
            Phase::SettingSearchPath
        } else {
            Phase::Finished
        }
    }

    /// The action that the staging waits on.
    pub fn pending(&self) -> (action: Action)
        ensures
            action@ == self@.pending(),
    {
        proof {
            use_type_invariant(self);
        }
        match self.phase {
            Phase::CheckingRoot => Action::CheckDir { path: clone_text(&self.root) },
            Phase::CreatingRoot => Action::CreateDir { path: clone_text(&self.root) },
            Phase::Inspecting(i) => match &self.steps[i] {
                Step::File { path, .. } => Action::Inspect { path: clone_text(path) },
                Step::Dir { .. } => Action::Finish,
            },
            Phase::Writing(i) => match &self.steps[i] {
                Step::File { path, source, contents } => Action::WriteFile {
                    path: clone_text(path),
                    source: clone_text(source),
                    contents: clone_bytes(contents),
                },
                Step::Dir { .. } => Action::Finish,
            },
            Phase::CreatingDir(i) => match &self.steps[i] {
                Step::Dir { path } => Action::CreateDir { path: clone_text(path) },
                Step::File { .. } => Action::Finish,
            },
            Phase::SettingSearchPath => match &self.search_path {
                Some(value) => Action::SetSearchPath { value: clone_text(value) },
                None => Action::Finish,
            },
            Phase::Finished => Action::Finish,
        }
    }

    /// Takes in what came of the pending action, and names the action that
    /// is pending after it.
    pub fn advance(&mut self, reply: Reply) -> (action: Action)
        ensures
            final(self)@ == old(self)@.next(reply),
            final(self)@.wf(),
            action@ == final(self)@.pending(),
    {
        proof {
            use_type_invariant(&*self);
            assert(self@.steps.len() == self.steps.len());
        }
        let phase = match (self.phase, reply) {
            (Phase::CheckingRoot, Reply::Exists(true)) => self.phase_at(0),
            (Phase::CheckingRoot, Reply::Exists(false)) => Phase::CreatingRoot,
            (Phase::CreatingRoot, Reply::Done(_)) => self.phase_at(0),
            (Phase::Inspecting(i), Reply::Size(found)) => {
                let len = match &self.steps[i] {
                    Step::File { contents, .. } => contents.len(),
                    Step::Dir { .. } => 0,
                };
                if needs_write(len, found) {
                    Phase::Writing(i)
                } else {
                    self.phase_at(i + 1)
                }
            },
            (Phase::Writing(i), Reply::Done(_)) => self.phase_at(i + 1),
            (Phase::CreatingDir(i), Reply::Done(_)) => self.phase_at(i + 1),
            (Phase::SettingSearchPath, Reply::Done(_)) => Phase::Finished,
            (phase, _) => phase,
        };
        self.phase = phase;
        self.pending()
    }
}

} // verus!
