//! Handing over to the init process of the system.

use vstd::prelude::*;
use crate::init::persist::write_step;
use crate::path::{join, path_join};
use crate::script::{
    no_steps, push_step, step_views, OnFailure, OsAction, OsStep, Step, StepView,
};
use crate::text::same;
use crate::init::state_dir;

verus! {

/// Whether a character is a lower-case hexadecimal digit.
pub open spec fn is_lower_hex(c: char) -> bool {
    ('0' <= c && c <= '9') || ('a' <= c && c <= 'f')
}

/// Whether a text is of the form of a machine id: 32 lower-case hexadecimal digits.
pub open spec fn is_machine_id(text: Seq<char>) -> bool {
    text.len() == 32 && forall|i: int| 0 <= i < 32 ==> is_lower_hex(#[trigger] text[i])
}

/// A new machine id, from `uuid::Uuid::new_v4` rendered without hyphens by
/// `Uuid::simple`. The id is random; every outcome has 32 lower-case hexadecimal digits.
#[verifier::external_body]
fn random_machine_id() -> (r: String)
    ensures
        is_machine_id(r@),
{
    format!("{}", uuid::Uuid::new_v4().simple())
}

pub open spec fn copy_file_step(from: Seq<char>, to: Seq<char>) -> StepView {
    Step { action: OsAction::CopyFile { path: from, target: to }, on_failure: OnFailure::Abort }
}

fn copy_file(from: &str, to: &str) -> (r: OsStep)
    ensures
        r@ == copy_file_step(from@, to@),
{
    Step {
        action: OsAction::CopyFile { path: from.to_owned(), target: to.to_owned() },
        on_failure: OnFailure::Abort,
    }
}

/// Where the machine id is kept.
pub open spec fn kept_machine_id() -> Seq<char> {
    path_join("/run/rugix/state"@, "machine-id"@)
}

/// The steps that restore a machine id that is kept, or keep a new one.
pub open spec fn machine_id_steps(root_dir: Seq<char>, kept: bool, id: Seq<char>) -> Seq<StepView> {
    let system = path_join(root_dir, "etc/machine-id"@);
    if kept {
        seq![copy_file_step(kept_machine_id(), system)]
    } else {
        seq![write_step(system, id), copy_file_step(system, kept_machine_id())]
    }
}

/// The steps that restore a machine id that is kept, or keep the given one.
pub fn machine_id_plan(root_dir: &str, kept: bool, id: &str) -> (r: Vec<OsStep>)
    ensures
        step_views(r@) == machine_id_steps(root_dir@, kept, id@),
{
    let system = join(root_dir, "etc/machine-id");
    let state = join(state_dir(), "machine-id");
    let mut steps = no_steps();
    if kept {
        push_step(&mut steps, copy_file(state.as_str(), system.as_str()));
    } else {
        push_step(
            &mut steps,
            Step {
                action: OsAction::WriteFile { path: system.clone(), text: id.to_owned() },
                on_failure: OnFailure::Abort,
            },
        );
        push_step(&mut steps, copy_file(system.as_str(), state.as_str()));
    }
    assert(step_views(steps@) =~= machine_id_steps(root_dir@, kept, id@));
    steps
}

/// Makes sure `/etc/machine-id` has been restored or initialized: the one that is kept is
/// restored; without one, a new one is made and kept.
pub fn restore_machine_id(root_dir: &str, kept: bool) -> (r: Vec<OsStep>)
    ensures
        kept ==> step_views(r@) == machine_id_steps(root_dir@, true, ""@),
        !kept ==> exists|id: Seq<char>|
            is_machine_id(id) && step_views(r@) == #[trigger] machine_id_steps(
                root_dir@,
                false,
                id,
            ),
{
    if kept {
        return machine_id_plan(root_dir, true, "");
    }
    let id = random_machine_id();
    let steps = machine_id_plan(root_dir, false, id.as_str());
    assert(is_machine_id(id@) && step_views(steps@) == machine_id_steps(root_dir@, false, id@));
    steps
}

/// A step of the handover.
#[derive(Debug, Clone, Copy, PartialEq, Eq, Structural)]
pub enum HandoffStep {
    /// Restore the machine id.
    RestoreMachineId,
    /// Change to the new root directory.
    EnterRoot,
    /// Make the current directory the root.
    PivotRoot,
    /// Detach the previous root.
    DetachOldRoot,
    /// Change to `/`.
    EnterSlash,
    /// Load the `boot` hooks.
    LoadBootHooks,
    /// Run the `post-init` hooks, which are told whether a commit is required.
    RunPostInit { requires_commit: bool },
    /// Replace this process by `/sbin/init`.
    ExecInit,
}

impl HandoffStep {
    /// Whether a failure ends the handover.
    pub open spec fn fatal(self) -> bool {
        !(self is RunPostInit)
    }

    /// Whether a failure ends the handover. Hooks that fail do not.
    pub fn is_fatal(self) -> (r: bool)
        ensures
            r == self.fatal(),
    {
        match self {
            HandoffStep::RunPostInit { .. } => false,
            _ => true,
        }
    }
}

/// The steps of the handover. The root is changed only where there is another one.
pub open spec fn handoff_steps(root_dir: Seq<char>, requires_commit: bool) -> Seq<HandoffStep> {
    let last = seq![
        HandoffStep::LoadBootHooks,
        HandoffStep::RunPostInit { requires_commit },
        HandoffStep::ExecInit,
    ];
    if root_dir == "/"@ {
        last
    } else {
        seq![
            HandoffStep::RestoreMachineId,
            HandoffStep::EnterRoot,
            HandoffStep::PivotRoot,
            HandoffStep::DetachOldRoot,
            HandoffStep::EnterSlash,
        ] + last
    }
}

/// Changes the root directory and hands over to the system init process.
pub fn exec_chroot_init(root_dir: &str, requires_commit: bool) -> (r: Vec<HandoffStep>)
    ensures
        r@ == handoff_steps(root_dir@, requires_commit),
{
    let mut steps: Vec<HandoffStep> = Vec::new();
    if !same(root_dir, "/") {
        steps.push(HandoffStep::RestoreMachineId);
        steps.push(HandoffStep::EnterRoot);
        steps.push(HandoffStep::PivotRoot);
        steps.push(HandoffStep::DetachOldRoot);
        steps.push(HandoffStep::EnterSlash);
    }
    steps.push(HandoffStep::LoadBootHooks);
    steps.push(HandoffStep::RunPostInit { requires_commit });
    steps.push(HandoffStep::ExecInit);
    assert(steps@ =~= handoff_steps(root_dir@, requires_commit));
    steps
}

/// The value of the variable that tells hooks whether a commit is required.
pub fn requires_commit_value(requires_commit: bool) -> (r: &'static str)
    ensures
        r@ == if requires_commit {
            "true"@
        } else {
            "false"@
        },
{
    if requires_commit {
        "true"
    } else {
        "false"
    }
}

/// Handing over always ends in the init process of the system.
pub proof fn law_handoff_ends_in_init(root_dir: Seq<char>, requires_commit: bool)
    ensures
        handoff_steps(root_dir, requires_commit).last() == HandoffStep::ExecInit,
{
}

} // verus!
