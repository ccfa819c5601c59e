//! Commands on applications.

use vstd::prelude::*;
use crate::apps::lifecycle::{active_generation, AppState};
use crate::apps::manager::AppManager;
use crate::path::{is_contained, join, path_join, ValidatedRelativePath};
use crate::text::{clone_strings, views};

verus! {

/// A command that changes an application.
#[derive(Debug, Clone, Copy, PartialEq, Eq, Structural)]
pub enum AppCommand {
    /// Activate a generation, by default the one that was activated last.
    Activate { generation: Option<u64> },
    /// Deactivate the current generation.
    Deactivate,
    /// Start the workload.
    Start,
    /// Stop the workload.
    Stop,
    /// Return to the previous generation.
    Rollback,
    /// Remove the application.
    Remove,
}

/// What a command wants done next.
#[derive(Debug, Clone, Copy, PartialEq, Eq, Structural)]
pub enum CommandAction {
    /// Lock the application.
    Lock,
    /// Find the generation that was activated last.
    FindLastActivated,
    /// Find the generation that a rollback returns to.
    FindRollbackTarget,
    /// Find out which generation is active.
    ReadCurrent,
    /// Check the components of a generation against the installed ones.
    CheckGeneration { generation: u64 },
    /// Check the installed components without those of the application.
    CheckRemoval,
    /// Report the components that do not fit together.
    ReportIncompatible,
    /// Activate a generation.
    Activate { generation: u64 },
    /// Deactivate the application.
    Deactivate,
    /// Start the workload.
    Start,
    /// Stop the workload.
    Stop,
    /// Return to the previous generation.
    Rollback,
    /// Remove the application.
    Remove,
    /// The command is over.
    Done,
    /// The command is refused.
    Fail(CommandError),
}

/// Why a command is refused.
#[derive(Debug, Clone, Copy, PartialEq, Eq, Structural)]
pub enum CommandError {
    /// No previously activated generation was found.
    NeverActivated,
    /// Component compatibility check failed.
    Incompatible,
    /// The last action failed.
    ActionFailed,
}

/// Outcome of an action.
#[derive(Debug, Clone, Copy, PartialEq, Eq, Structural)]
pub enum CommandEvent {
    Done,
    Failed,
    /// The generation that was looked for.
    Generation(Option<u64>),
    /// Whether the components fit together.
    Compatible(bool),
}

/// Progress of a command.
#[derive(Debug, Clone, Copy, PartialEq, Eq, Structural)]
pub enum CommandPhase {
    Locking,
    Finding,
    ReadingCurrent,
    /// Components are being checked; for an activation, those of the generation.
    Checking { generation: Option<u64> },
    Reporting,
    Performing,
    Finished,
}

/// A command on an application.
#[derive(Debug)]
pub struct AppCommandRun {
    pub phase: CommandPhase,
    pub command: AppCommand,
    pub skip_compatibility_check: bool,
}

/// A phase and the action that begins it.
pub type CommandStep = (CommandPhase, CommandAction);

impl CommandAction {
    /// Whether the action changes which components are installed.
    pub open spec fn changes_components(self) -> bool {
        match self {
            CommandAction::Activate { .. } => true,
            CommandAction::Deactivate => true,
            CommandAction::Rollback => true,
            CommandAction::Remove => true,
            _ => false,
        }
    }
}

/// The end of a command that is refused.
pub open spec fn refused(error: CommandError) -> CommandStep {
    (CommandPhase::Finished, CommandAction::Fail(error))
}

impl AppCommandRun {
    /// The step that activates a generation, or checks it before.
    pub open spec fn to_activation(self, generation: u64) -> CommandStep {
        if self.skip_compatibility_check {
            (CommandPhase::Performing, CommandAction::Activate { generation })
        } else {
            (
                CommandPhase::Checking { generation: Some(generation) },
                CommandAction::CheckGeneration { generation },
            )
        }
    }

    /// The step after the application is locked.
    pub open spec fn to_work(self) -> CommandStep {
        match self.command {
            AppCommand::Activate { generation: Some(generation) } => self.to_activation(generation),
            AppCommand::Activate { generation: None } => (
                CommandPhase::Finding,
                CommandAction::FindLastActivated,
            ),
            AppCommand::Rollback => if self.skip_compatibility_check {
                (CommandPhase::Performing, CommandAction::Rollback)
            } else {
                (CommandPhase::Finding, CommandAction::FindRollbackTarget)
            },
            AppCommand::Deactivate => if self.skip_compatibility_check {
                (CommandPhase::Performing, CommandAction::Deactivate)
            } else {
                (CommandPhase::ReadingCurrent, CommandAction::ReadCurrent)
            },
            AppCommand::Remove => if self.skip_compatibility_check {
                (CommandPhase::Performing, CommandAction::Remove)
            } else {
                (CommandPhase::ReadingCurrent, CommandAction::ReadCurrent)
            },
            AppCommand::Start => (CommandPhase::Performing, CommandAction::Start),
            AppCommand::Stop => (CommandPhase::Performing, CommandAction::Stop),
        }
    }

    /// The step that does what the command asks for, once nothing is to be checked.
    pub open spec fn to_change(self, generation: Option<u64>) -> CommandStep {
        match (self.command, generation) {
            (AppCommand::Activate { .. }, Some(generation)) => (
                CommandPhase::Performing,
                CommandAction::Activate { generation },
            ),
            (AppCommand::Rollback, Some(_)) => (CommandPhase::Performing, CommandAction::Rollback),
            (AppCommand::Deactivate, None) => (CommandPhase::Performing, CommandAction::Deactivate),
            (AppCommand::Remove, None) => (CommandPhase::Performing, CommandAction::Remove),
            _ => refused(CommandError::ActionFailed),
        }
    }

    /// The step that follows an outcome.
    pub open spec fn step(self, event: CommandEvent) -> CommandStep {
        match (self.phase, event) {
            (CommandPhase::Locking, CommandEvent::Done) => self.to_work(),
            (CommandPhase::Finding, CommandEvent::Generation(generation)) => match generation {
                Some(generation) => if self.command is Rollback {
                    (
                        CommandPhase::Checking { generation: Some(generation) },
                        CommandAction::CheckGeneration { generation },
                    )
                } else {
                    self.to_activation(generation)
                },
                None => refused(CommandError::NeverActivated),
            },
            (CommandPhase::ReadingCurrent, CommandEvent::Generation(generation)) => match generation {
                Some(_) => (
                    CommandPhase::Checking { generation: None },
                    CommandAction::CheckRemoval,
                ),
                None => self.to_change(None),
            },
            (CommandPhase::Checking { generation }, CommandEvent::Compatible(compatible)) => if compatible {
                self.to_change(generation)
            } else {
                (CommandPhase::Reporting, CommandAction::ReportIncompatible)
            },
            (CommandPhase::Reporting, CommandEvent::Done) => refused(CommandError::Incompatible),
            (CommandPhase::Performing, CommandEvent::Done) => (
                CommandPhase::Finished,
                CommandAction::Done,
            ),
            _ => refused(CommandError::ActionFailed),
        }
    }

    /// Begins a command.
    pub fn begin(command: AppCommand, skip_compatibility_check: bool) -> (r: (
        AppCommandRun,
        CommandAction,
    ))
        ensures
            r.0.phase == CommandPhase::Locking,
            r.0.command == command,
            r.0.skip_compatibility_check == skip_compatibility_check,
            r.1 == CommandAction::Lock,
    {
        (
            AppCommandRun { phase: CommandPhase::Locking, command, skip_compatibility_check },
            CommandAction::Lock,
        )
    }

    fn activation(&self, generation: u64) -> (r: CommandStep)
        ensures
            r == self.to_activation(generation),
    {
        if self.skip_compatibility_check {
            (CommandPhase::Performing, CommandAction::Activate { generation })
        } else {
            (
                CommandPhase::Checking { generation: Some(generation) },
                CommandAction::CheckGeneration { generation },
            )
        }
    }

    fn work(&self) -> (r: CommandStep)
        ensures
            r == self.to_work(),
    {
        match self.command {
            AppCommand::Activate { generation: Some(generation) } => self.activation(generation),
            AppCommand::Activate { generation: None } => (
                CommandPhase::Finding,
                CommandAction::FindLastActivated,
            ),
            AppCommand::Rollback => if self.skip_compatibility_check {
                (CommandPhase::Performing, CommandAction::Rollback)
            } else {
                (CommandPhase::Finding, CommandAction::FindRollbackTarget)
            },
            AppCommand::Deactivate => if self.skip_compatibility_check {
                (CommandPhase::Performing, CommandAction::Deactivate)
            } else {
                (CommandPhase::ReadingCurrent, CommandAction::ReadCurrent)
            },
            AppCommand::Remove => if self.skip_compatibility_check {
                (CommandPhase::Performing, CommandAction::Remove)
            } else {
                (CommandPhase::ReadingCurrent, CommandAction::ReadCurrent)
            },
            AppCommand::Start => (CommandPhase::Performing, CommandAction::Start),
            AppCommand::Stop => (CommandPhase::Performing, CommandAction::Stop),
        }
    }

    fn change(&self, generation: Option<u64>) -> (r: CommandStep)
        ensures
            r == self.to_change(generation),
    {
        match (self.command, generation) {
            (AppCommand::Activate { .. }, Some(generation)) => (
                CommandPhase::Performing,
                CommandAction::Activate { generation },
            ),
            (AppCommand::Rollback, Some(_)) => (CommandPhase::Performing, CommandAction::Rollback),
            (AppCommand::Deactivate, None) => (CommandPhase::Performing, CommandAction::Deactivate),
            (AppCommand::Remove, None) => (CommandPhase::Performing, CommandAction::Remove),
            _ => (CommandPhase::Finished, CommandAction::Fail(CommandError::ActionFailed)),
        }
    }

    /// Takes the outcome of the last action and names the next one.
    pub fn next(&mut self, event: CommandEvent) -> (action: CommandAction)
        ensures
            (final(self).phase, action) == old(self).step(event),
            final(self).command == old(self).command,
            final(self).skip_compatibility_check == old(self).skip_compatibility_check,
    {
        let (phase, action) = match (self.phase, event) {
            (CommandPhase::Locking, CommandEvent::Done) => self.work(),
            (CommandPhase::Finding, CommandEvent::Generation(generation)) => match generation {
                Some(generation) => match self.command {
                    AppCommand::Rollback => (
                        CommandPhase::Checking { generation: Some(generation) },
                        CommandAction::CheckGeneration { generation },
                    ),
                    _ => self.activation(generation),
                },
                None => (
                    CommandPhase::Finished,
                    CommandAction::Fail(CommandError::NeverActivated),
                ),
            },
            (CommandPhase::ReadingCurrent, CommandEvent::Generation(generation)) => match generation {
                Some(_) => (
                    CommandPhase::Checking { generation: None },
                    CommandAction::CheckRemoval,
                ),
                None => self.change(None),
            },
            (CommandPhase::Checking { generation }, CommandEvent::Compatible(compatible)) => if compatible {
                self.change(generation)
            } else {
                (CommandPhase::Reporting, CommandAction::ReportIncompatible)
            },
            (CommandPhase::Reporting, CommandEvent::Done) => (
                CommandPhase::Finished,
                CommandAction::Fail(CommandError::Incompatible),
            ),
            (CommandPhase::Performing, CommandEvent::Done) => (
                CommandPhase::Finished,
                CommandAction::Done,
            ),
            _ => (CommandPhase::Finished, CommandAction::Fail(CommandError::ActionFailed)),
        };
        self.phase = phase;
        action
    }
}

/// The activation of a generation.
pub open spec fn activation_of(generation: u64) -> CommandAction {
    CommandAction::Activate { generation }
}

/// Unless the check is skipped on request, an application changes the installed components
/// only where a check has found that they fit together, or where no generation of it is
/// active whose components would be taken away. The generation that is activated is the one
/// that was checked.
pub proof fn law_incompatible_change_is_refused(run: AppCommandRun, event: CommandEvent)
    requires
        !run.skip_compatibility_check,
        run.step(event).1.changes_components(),
    ensures
        ({
            ||| run.phase is Checking && event == CommandEvent::Compatible(true)
            ||| run.phase is ReadingCurrent && event == CommandEvent::Generation(None) && (
            run.command is Deactivate || run.command is Remove)
        }),
        forall|generation: u64|
            run.command is Activate && run.phase == (CommandPhase::Checking {
                generation: Some(generation),
            }) ==> run.step(event).1 == #[trigger] activation_of(generation),
{
}

/// The applications whose generations are collected: the given one, or all.
pub fn gc_apps(app: &Option<String>, all: &Vec<String>) -> (r: Vec<String>)
    ensures
        views(r@) == match app {
            Some(app) => seq![app@],
            None => views(all@),
        },
{
    match app {
        Some(app) => {
            let mut r: Vec<String> = Vec::new();
            r.push(app.as_str().to_owned());
            assert(views(r@) =~= seq![app@]);
            r
        },
        None => clone_strings(all),
    }
}

/// The number of formerly active generations that are kept, unless told otherwise.
pub const DEFAULT_KEEP: usize = 1;

/// Why an index is not created.
#[derive(Debug, Clone, Copy, PartialEq, Eq, Structural)]
pub enum IndexError {
    /// There is no active generation of the application.
    NoActiveGeneration,
    /// Invalid app-file path.
    InvalidPath,
    /// The file was not found in the generation.
    NotFound,
}

/// The generation that indices are created for: the given one, or the active one.
pub fn index_generation(generation: Option<u64>, state: &AppState) -> (r: Result<u64, IndexError>)
    ensures
        r == match generation {
            Some(generation) => Ok::<u64, IndexError>(generation),
            None => match active_generation(*state) {
                Some(generation) => Ok(generation),
                None => Err(IndexError::NoActiveGeneration),
            },
        },
{
    match generation {
        Some(generation) => Ok(generation),
        None => match AppManager::current_generation(state) {
            Some(generation) => Ok(generation),
            None => Err(IndexError::NoActiveGeneration),
        },
    }
}

/// The payloads that indices are created for: the given one, or all that are known.
pub fn index_paths(path: &Option<String>, known: &Vec<String>) -> (r: Vec<String>)
    ensures
        views(r@) == match path {
            Some(path) => seq![path@],
            None => views(known@),
        },
{
    gc_apps(path, known)
}

/// The file of a payload, where its path is contained in the generation and it is there.
pub fn index_file<F: FnOnce(&str) -> bool>(generation_dir: &str, path: &str, probe: F) -> (r:
    Result<String, IndexError>)
    requires
        forall|file: &str|
            file@ == path_join(generation_dir@, path@) ==> call_requires(probe, (file,)),
    ensures
        match r {
            Ok(file) => {
                &&& is_contained(path@)
                &&& file@ == path_join(generation_dir@, path@)
                &&& exists|text: &str|
                    text@ == path_join(generation_dir@, path@) && #[trigger] call_ensures(
                        probe,
                        (text,),
                        true,
                    )
            },
            Err(IndexError::InvalidPath) => !is_contained(path@),
            Err(IndexError::NotFound) => is_contained(path@) && exists|text: &str|
                text@ == path_join(generation_dir@, path@) && #[trigger] call_ensures(
                    probe,
                    (text,),
                    false,
                ),
            Err(IndexError::NoActiveGeneration) => false,
        },
{
    if ValidatedRelativePath::new(path).is_none() {
        return Err(IndexError::InvalidPath);
    }
    let file = join(generation_dir, path);
    let found = probe(file.as_str());
    if found {
        Ok(file)
    } else {
        Err(IndexError::NotFound)
    }
}

} // verus!
