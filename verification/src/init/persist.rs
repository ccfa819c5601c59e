//! Bind mounts for the persistent state.

use vstd::prelude::*;
use crate::init::overlay::create_dirs_step;
use crate::path::{join, path_join, path_strip_root, without_root};
use crate::run::Run;
use crate::script::{
    is_plan, no_steps, push_step, run, run_step, step_views, texts, OnFailure, OsAction, OsStep,
    Plan, PlanOf, Step, StepView,
};
use crate::state::PersistConfig;

verus! {

/// What is at a path.
#[derive(Debug, Clone, Copy, PartialEq, Eq, Structural)]
pub enum PathKind {
    Nothing,
    Directory,
    File,
    Other,
}

/// What is at the two paths of an entry.
#[derive(Debug, Clone, Copy, PartialEq, Eq, Structural)]
pub struct PersistProbe {
    pub system: PathKind,
    pub state: PathKind,
}

/// Why an entry cannot be kept.
#[derive(Debug, Clone, Copy, PartialEq, Eq, Structural)]
pub enum PersistError {
    NotADirectory,
    NotAFile,
}

/// The path of an entry.
pub open spec fn entry_path(entry: PersistConfig) -> Seq<char> {
    match entry {
        PersistConfig::Directory { directory } => without_root(directory@),
        PersistConfig::File { file, .. } => without_root(file@),
    }
}

/// Where an entry is in the system.
pub open spec fn system_path(entry: PersistConfig, root_dir: Seq<char>) -> Seq<char> {
    path_join(root_dir, entry_path(entry))
}

/// Where an entry is kept.
pub open spec fn state_path(entry: PersistConfig, state_profile: Seq<char>) -> Seq<char> {
    path_join(path_join(state_profile, "persist"@), entry_path(entry))
}

pub open spec fn remove_step(path: Seq<char>) -> StepView {
    Step { action: OsAction::RemoveDirAll { path }, on_failure: OnFailure::Ignore }
}

pub open spec fn parent_step(path: Seq<char>, on_failure: OnFailure) -> StepView {
    Step { action: OsAction::CreateParent { path }, on_failure }
}

pub open spec fn write_step(path: Seq<char>, text: Seq<char>) -> StepView {
    Step { action: OsAction::WriteFile { path, text }, on_failure: OnFailure::Abort }
}

pub open spec fn copy_step(from: Seq<char>, to: Seq<char>) -> StepView {
    run_step(seq!["/usr/bin/env"@, "cp"@, "-a"@, from, to], OnFailure::Abort)
}

pub open spec fn bind_step(from: Seq<char>, to: Seq<char>) -> StepView {
    run_step(seq!["/usr/bin/env"@, "mount"@, "--bind"@, from, to], OnFailure::Abort)
}

/// The steps that keep a directory: what the system has is copied once, then the kept
/// directory takes its place.
pub open spec fn directory_steps(
    system: Seq<char>,
    state: Seq<char>,
    probe: PersistProbe,
) -> Seq<StepView> {
    (if probe.state is Directory {
        Seq::empty()
    } else {
        seq![
            remove_step(state),
            parent_step(state, OnFailure::Ignore),
            if probe.system is Directory {
                copy_step(system, state)
            } else {
                create_dirs_step(state, OnFailure::Ignore)
            },
        ]
    }) + (if probe.system is Directory {
        Seq::empty()
    } else {
        seq![create_dirs_step(system, OnFailure::Abort)]
    }) + seq![bind_step(state, system)]
}

/// The steps that keep a file.
pub open spec fn file_steps(
    system: Seq<char>,
    state: Seq<char>,
    default: Seq<char>,
    probe: PersistProbe,
) -> Seq<StepView> {
    (if probe.state is File {
        Seq::empty()
    } else {
        seq![
            remove_step(state),
            parent_step(state, OnFailure::Abort),
            if probe.system is File {
                copy_step(system, state)
            } else {
                write_step(state, default)
            },
        ]
    }) + (if probe.system is File {
        Seq::empty()
    } else {
        seq![parent_step(system, OnFailure::Abort), write_step(system, ""@)]
    }) + seq![bind_step(state, system)]
}

/// The steps that keep an entry, or why it cannot be kept.
pub open spec fn entry_plan(
    entry: PersistConfig,
    root_dir: Seq<char>,
    state_profile: Seq<char>,
    probe: PersistProbe,
) -> PlanOf<PersistError> {
    let system = system_path(entry, root_dir);
    let state = state_path(entry, state_profile);
    match entry {
        PersistConfig::Directory { .. } => if probe.system is Nothing || probe.system is Directory {
            (directory_steps(system, state, probe), None)
        } else {
            (Seq::empty(), Some(PersistError::NotADirectory))
        },
        PersistConfig::File { default, .. } => if probe.system is Nothing || probe.system is File {
            (
                file_steps(
                    system,
                    state,
                    match default {
                        Some(text) => text@,
                        None => ""@,
                    },
                    probe,
                ),
                None,
            )
        } else {
            (Seq::empty(), Some(PersistError::NotAFile))
        },
    }
}

/// The paths of an entry: in the system, and where it is kept.
pub fn entry_paths(entry: &PersistConfig, root_dir: &str, state_profile: &str) -> (r: (
    String,
    String,
))
    ensures
        r.0@ == system_path(*entry, root_dir@),
        r.1@ == state_path(*entry, state_profile@),
{
    let relative = match entry {
        PersistConfig::Directory { directory } => path_strip_root(directory.as_str()),
        PersistConfig::File { file, .. } => path_strip_root(file.as_str()),
    };
    let persist_dir = join(state_profile, "persist");
    (join(root_dir, relative.as_str()), join(persist_dir.as_str(), relative.as_str()))
}

fn remove_dir_all(path: &str) -> (r: OsStep)
    ensures
        r@ == remove_step(path@),
{
    Step {
        action: OsAction::RemoveDirAll { path: path.to_owned() },
        on_failure: OnFailure::Ignore,
    }
}

fn create_parent_dir(path: &str, on_failure: OnFailure) -> (r: OsStep)
    ensures
        r@ == parent_step(path@, on_failure),
{
    Step { action: OsAction::CreateParent { path: path.to_owned() }, on_failure }
}

fn create_dirs(path: &str, on_failure: OnFailure) -> (r: OsStep)
    ensures
        r@ == create_dirs_step(path@, on_failure),
{
    Step { action: OsAction::CreateDirs { path: path.to_owned() }, on_failure }
}

fn write_file(path: &str, text: &str) -> (r: OsStep)
    ensures
        r@ == write_step(path@, text@),
{
    Step {
        action: OsAction::WriteFile { path: path.to_owned(), text: text.to_owned() },
        on_failure: OnFailure::Abort,
    }
}

fn copy(from: &str, to: &str) -> (r: OsStep)
    ensures
        r@ == copy_step(from@, to@),
{
    let args = ["/usr/bin/env", "cp", "-a", from, to];
    assert(texts(args@) =~= seq!["/usr/bin/env"@, "cp"@, "-a"@, from@, to@]);
    run(&args, OnFailure::Abort)
}

/// A step that makes a directory or file appear at another path.
pub fn bind(from: &str, to: &str) -> (r: OsStep)
    ensures
        r@ == bind_step(from@, to@),
{
    let args = ["/usr/bin/env", "mount", "--bind", from, to];
    assert(texts(args@) =~= seq!["/usr/bin/env"@, "mount"@, "--bind"@, from@, to@]);
    run(&args, OnFailure::Abort)
}

/// Plans how an entry is kept.
pub fn plan_entry(
    entry: &PersistConfig,
    root_dir: &str,
    state_profile: &str,
    probe: PersistProbe,
) -> (r: Plan<PersistError>)
    ensures
        is_plan(r, entry_plan(*entry, root_dir@, state_profile@, probe)),
{
    let (system, state) = entry_paths(entry, root_dir, state_profile);
    let mut steps = no_steps();
    match entry {
        PersistConfig::Directory { .. } => {
            if probe.system != PathKind::Nothing && probe.system != PathKind::Directory {
                return Plan { steps, refusal: Some(PersistError::NotADirectory) };
            }
            if probe.state != PathKind::Directory {
                push_step(&mut steps, remove_dir_all(state.as_str()));
                push_step(&mut steps, create_parent_dir(state.as_str(), OnFailure::Ignore));
                if probe.system == PathKind::Directory {
                    push_step(&mut steps, copy(system.as_str(), state.as_str()));
                } else {
                    push_step(&mut steps, create_dirs(state.as_str(), OnFailure::Ignore));
                }
            }
            if probe.system != PathKind::Directory {
                push_step(&mut steps, create_dirs(system.as_str(), OnFailure::Abort));
            }
            push_step(&mut steps, bind(state.as_str(), system.as_str()));
            assert(step_views(steps@) =~= directory_steps(system@, state@, probe));
        },
        PersistConfig::File { default, .. } => {
            if probe.system != PathKind::Nothing && probe.system != PathKind::File {
                return Plan { steps, refusal: Some(PersistError::NotAFile) };
            }
            let text = match default {
                Some(text) => text.clone(),
                None => "".to_owned(),
            };
            if probe.state != PathKind::File {
                push_step(&mut steps, remove_dir_all(state.as_str()));
                push_step(&mut steps, create_parent_dir(state.as_str(), OnFailure::Abort));
                if probe.system == PathKind::File {
                    push_step(&mut steps, copy(system.as_str(), state.as_str()));
                } else {
                    push_step(&mut steps, write_file(state.as_str(), text.as_str()));
                }
            }
            if probe.system != PathKind::File {
                push_step(&mut steps, create_parent_dir(system.as_str(), OnFailure::Abort));
                push_step(&mut steps, write_file(system.as_str(), ""));
            }
            push_step(&mut steps, bind(state.as_str(), system.as_str()));
            assert(step_views(steps@) =~= file_steps(system@, state@, text@, probe));
        },
    }
    Plan { steps, refusal: None }
}

/// What the setup of the persistent state wants done next.
#[derive(Debug, Clone, Copy, PartialEq, Eq, Structural)]
pub enum PersistAction {
    /// Create the directory of the state profile.
    CreateProfile,
    /// Look at the paths of an entry, then take the steps of its plan.
    SetUpEntry { index: usize },
    /// Everything is set up.
    Done,
    /// An entry could not be set up.
    Fail { index: usize },
}

/// The setup of the persistent state.
#[derive(Debug, Clone, Copy)]
pub struct PersistSetup {
    /// Number of entries.
    pub count: usize,
    /// The entry that is being set up, once the profile is there.
    pub at: Option<usize>,
}

impl PersistSetup {
    /// The action for an entry, or what follows the last one.
    pub open spec fn entry_action(self, index: int) -> PersistAction {
        if index < self.count {
            PersistAction::SetUpEntry { index: index as usize }
        } else {
            PersistAction::Done
        }
    }

    /// Begins the setup of `count` entries.
    pub fn setup_persistent_state(count: usize) -> (r: (PersistSetup, PersistAction))
        ensures
            r.0 == (PersistSetup { count, at: None }),
            r.1 == PersistAction::CreateProfile,
    {
        (PersistSetup { count, at: None }, PersistAction::CreateProfile)
    }

    /// Takes whether the last action succeeded, and names the next one. The entries are
    /// set up in order, and the first failure ends the setup.
    pub fn next(&mut self, ok: bool) -> (action: PersistAction)
        requires
            old(self).at matches Some(index) ==> index < old(self).count,
        ensures
            final(self).count == old(self).count,
            final(self).at == match action {
                PersistAction::SetUpEntry { index } => Some(index),
                _ => old(self).at,
            },
            action matches PersistAction::SetUpEntry { index } ==> index < final(self).count,
            action == match old(self).at {
                None => old(self).entry_action(0),
                Some(index) => if ok {
                    old(self).entry_action(index + 1)
                } else {
                    PersistAction::Fail { index }
                },
            },
    {
        let next: usize = match self.at {
            None => 0,
            Some(index) => {
                if !ok {
                    return PersistAction::Fail { index };
                }
                index + 1
            },
        };
        if next < self.count {
            self.at = Some(next);
            PersistAction::SetUpEntry { index: next }
        } else {
            PersistAction::Done
        }
    }
}

/// What is already kept is not overwritten: where the kept path holds what it should, the
/// only steps are those that make it appear in the system.
pub proof fn law_kept_state_is_not_overwritten(
    entry: PersistConfig,
    root_dir: Seq<char>,
    state_profile: Seq<char>,
    probe: PersistProbe,
    i: int,
)
    requires
        match entry {
            PersistConfig::Directory { .. } => probe.state is Directory,
            PersistConfig::File { .. } => probe.state is File,
        },
        0 <= i < entry_plan(entry, root_dir, state_profile, probe).0.len(),
    ensures
        ({
            let step = entry_plan(entry, root_dir, state_profile, probe).0[i];
            let system = system_path(entry, root_dir);
            ||| step == bind_step(state_path(entry, state_profile), system)
            ||| step == create_dirs_step(system, OnFailure::Abort)
            ||| step == parent_step(system, OnFailure::Abort)
            ||| step == write_step(system, ""@)
        }),
{
}

/// A run of the setup. An outcome is whether the action succeeded.
pub type PersistRun = Run<PersistSetup, PersistAction, bool>;

/// Whether these are the states, actions and outcomes of a setup from its beginning.
pub open spec fn is_persist_run(run: PersistRun, count: usize) -> bool {
    &&& run.wf()
    &&& run.states[0] == (PersistSetup { count, at: None })
    &&& run.actions[0] is CreateProfile
    &&& forall|i: int| #[trigger]
        run.has(i) ==> !(run.actions[i] is Done) && !(run.actions[i] is Fail) && {
            let before = run.states[i];
            let after = run.states[i + 1];
            let action = run.actions[i + 1];
            &&& after.count == before.count
            &&& after.at == match action {
                PersistAction::SetUpEntry { index } => Some(index),
                _ => before.at,
            }
            &&& action == match before.at {
                None => before.entry_action(0),
                Some(index) => if run.events[i] {
                    before.entry_action(index + 1)
                } else {
                    PersistAction::Fail { index }
                },
            }
        }
}

proof fn lemma_persist(run: PersistRun, count: usize, i: int)
    requires
        is_persist_run(run, count),
        0 <= i < run.actions.len(),
    ensures
        run.states[i].count == count,
        run.actions[i] is CreateProfile <==> i == 0,
        run.actions[i] is CreateProfile ==> run.states[i].at is None,
        run.actions[i] matches PersistAction::SetUpEntry { index } ==> run.states[i].at == Some(
            index,
        ) && index < count,
    decreases i,
{
    if i > 0 {
        assert(run.has(i - 1));
        lemma_persist(run, count, i - 1);
    }
}

/// All entries are set up, one after the other, once the profile was created or was there.
/// The first entry that cannot be set up ends the setup, and it is named.
pub proof fn law_entries_are_set_up_in_order(run: PersistRun, count: usize, i: int)
    requires
        is_persist_run(run, count),
        run.has(i),
    ensures
        ({
            let before = run.actions[i];
            let ok = run.events[i];
            let last = if count == 0 {
                before is CreateProfile
            } else {
                ok && before == (PersistAction::SetUpEntry { index: (count - 1) as usize })
            };
            &&& run.actions[0] is CreateProfile
            &&& match run.actions[i + 1] {
                PersistAction::CreateProfile => false,
                PersistAction::SetUpEntry { index } => index < count && if index == 0 {
                    before is CreateProfile
                } else {
                    ok && before == (PersistAction::SetUpEntry { index: (index - 1) as usize })
                },
                PersistAction::Done => last,
                PersistAction::Fail { index } => !ok && before == (PersistAction::SetUpEntry {
                    index,
                }),
            }
        }),
{
    lemma_persist(run, count, i);
    lemma_persist(run, count, i + 1);
}

} // verus!
