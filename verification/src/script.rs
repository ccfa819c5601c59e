//! Sequences of actions on the operating system.
//!
//! The library decides which actions are taken, in which order, and what follows
//! when one of them fails. Each action is a plain value.

use vstd::prelude::*;
use crate::text::views;

verus! {

/// What follows when an action fails.
#[derive(Debug, Clone, Copy, PartialEq, Eq, Structural)]
pub enum OnFailure {
    /// Nothing more is done.
    Abort,
    /// The failure is of no consequence.
    Ignore,
    /// The next action is still taken, and nothing after it.
    AfterNext,
}

/// An action. `S` is a text, `L` a list of texts.
#[derive(Debug)]
pub enum OsAction<S, L> {
    /// Create a directory and its parents.
    CreateDirs { path: S },
    /// Create the parent directories of a path.
    CreateParent { path: S },
    /// Remove a directory with everything in it.
    RemoveDirAll { path: S },
    /// Remove a directory with everything in it, if it is there.
    RemoveDirAllIfPresent { path: S },
    /// Remove a file.
    RemoveFile { path: S },
    /// Remove a file, if it is there.
    RemoveFileIfPresent { path: S },
    /// Move a file or a directory.
    Rename { path: S, target: S },
    /// Write a file.
    WriteFile { path: S, text: S },
    /// Copy a file.
    CopyFile { path: S, target: S },
    /// Run a program with arguments. `vars` lists the name and the value of each
    /// variable that is added to its environment.
    Run { args: L, vars: L },
    /// Run a program with arguments, unless there is something at a path by then.
    RunUnlessPresent { path: S, args: L },
    /// Create an Ext4 filesystem.
    MakeExt4 { device: S, label: S, options: L },
}

/// An action and what follows when it fails.
#[derive(Debug)]
pub struct Step<S, L> {
    pub action: OsAction<S, L>,
    pub on_failure: OnFailure,
}

/// A step that can be taken.
pub type OsStep = Step<String, Vec<String>>;

/// A step as the contracts speak of it.
pub type StepView = Step<Seq<char>, Seq<Seq<char>>>;

impl View for OsAction<String, Vec<String>> {
    type V = OsAction<Seq<char>, Seq<Seq<char>>>;

    open spec fn view(&self) -> Self::V {
        match *self {
            OsAction::CreateDirs { path } => OsAction::CreateDirs { path: path@ },
            OsAction::CreateParent { path } => OsAction::CreateParent { path: path@ },
            OsAction::RemoveDirAll { path } => OsAction::RemoveDirAll { path: path@ },
            OsAction::RemoveDirAllIfPresent { path } => OsAction::RemoveDirAllIfPresent {
                path: path@,
            },
            OsAction::RemoveFile { path } => OsAction::RemoveFile { path: path@ },
            OsAction::RemoveFileIfPresent { path } => OsAction::RemoveFileIfPresent {
                path: path@,
            },
            OsAction::Rename { path, target } => OsAction::Rename { path: path@, target: target@ },
            OsAction::WriteFile { path, text } => OsAction::WriteFile { path: path@, text: text@ },
            OsAction::CopyFile { path, target } => OsAction::CopyFile {
                path: path@,
                target: target@,
            },
            OsAction::Run { args, vars } => OsAction::Run { args: views(args@), vars: views(vars@) },
            OsAction::RunUnlessPresent { path, args } => OsAction::RunUnlessPresent {
                path: path@,
                args: views(args@),
            },
            OsAction::MakeExt4 { device, label, options } => OsAction::MakeExt4 {
                device: device@,
                label: label@,
                options: views(options@),
            },
        }
    }
}

impl View for Step<String, Vec<String>> {
    type V = Step<Seq<char>, Seq<Seq<char>>>;

    open spec fn view(&self) -> Self::V {
        Step { action: self.action@, on_failure: self.on_failure }
    }
}

/// The steps of a script.
pub open spec fn step_views(steps: Seq<OsStep>) -> Seq<StepView> {
    Seq::new(steps.len(), |i: int| steps[i]@)
}

/// The texts of a list.
pub open spec fn texts(list: Seq<&str>) -> Seq<Seq<char>> {
    Seq::new(list.len(), |i: int| list[i]@)
}

/// A step that runs a program.
pub open spec fn run_step(args: Seq<Seq<char>>, on_failure: OnFailure) -> StepView {
    Step { action: OsAction::Run { args, vars: Seq::empty() }, on_failure }
}

/// A step that runs a program with variables added to its environment.
pub open spec fn run_with_step(
    args: Seq<Seq<char>>,
    vars: Seq<Seq<char>>,
    on_failure: OnFailure,
) -> StepView {
    Step { action: OsAction::Run { args, vars }, on_failure }
}

/// A list of texts of its own.
pub fn owned(list: &[&str]) -> (r: Vec<String>)
    ensures
        views(r@) == texts(list@),
        r@.len() == list@.len(),
{
    let mut r: Vec<String> = Vec::new();
    let mut i: usize = 0;
    while i < list.len()
        invariant
            i <= list@.len(),
            r@.len() == i,
            forall|j: int| 0 <= j < i ==> (#[trigger] r@[j])@ == list@[j]@,
        decreases list@.len() - i,
    {
        r.push(list[i].to_owned());
        i = i + 1;
    }
    assert(views(r@) =~= texts(list@));
    r
}

/// A step that runs a program.
pub fn run(args: &[&str], on_failure: OnFailure) -> (r: OsStep)
    ensures
        r@ == run_step(texts(args@), on_failure),
{
    let vars: Vec<String> = Vec::new();
    assert(views(vars@) =~= Seq::<Seq<char>>::empty());
    Step { action: OsAction::Run { args: owned(args), vars }, on_failure }
}

/// A step that runs a program with variables added to its environment.
pub fn run_with(args: &[&str], vars: &[&str], on_failure: OnFailure) -> (r: OsStep)
    ensures
        r@ == run_with_step(texts(args@), texts(vars@), on_failure),
{
    Step { action: OsAction::Run { args: owned(args), vars: owned(vars) }, on_failure }
}

/// Adds a step at the end.
pub fn push_step(steps: &mut Vec<OsStep>, step: OsStep)
    ensures
        step_views(final(steps)@) == step_views(old(steps)@).push(step@),
{
    let ghost before = step_views(steps@);
    steps.push(step);
    assert(step_views(steps@) =~= before.push(step@));
}

/// Adds all steps of another script at the end.
pub fn push_steps(steps: &mut Vec<OsStep>, more: Vec<OsStep>)
    ensures
        step_views(final(steps)@) == step_views(old(steps)@) + step_views(more@),
{
    let ghost before = steps@;
    let ghost added = more@;
    let mut rest = more;
    steps.append(&mut rest);
    assert(step_views(steps@) =~= step_views(before) + step_views(added));
}

/// No steps.
pub fn no_steps() -> (r: Vec<OsStep>)
    ensures
        step_views(r@) == Seq::<StepView>::empty(),
{
    let r: Vec<OsStep> = Vec::new();
    assert(step_views(r@) =~= Seq::<StepView>::empty());
    r
}

/// Steps, and why nothing can follow them.
#[derive(Debug)]
pub struct Plan<E> {
    pub steps: Vec<OsStep>,
    /// Set where the steps are not enough: once they are taken, this is the failure.
    pub refusal: Option<E>,
}

/// A plan as the contracts speak of it.
pub type PlanOf<E> = (Seq<StepView>, Option<E>);

/// Whether a plan is the expected one.
pub open spec fn is_plan<E>(plan: Plan<E>, expected: PlanOf<E>) -> bool {
    step_views(plan.steps@) == expected.0 && plan.refusal == expected.1
}

/// How far a script is.
#[derive(Debug, Clone, Copy, PartialEq, Eq, Structural)]
pub enum Progress {
    /// The current step is to be taken.
    Running,
    /// All steps are taken.
    Done,
    /// A failure ended the script.
    Failed,
}

/// A sequence of steps that is being taken.
#[derive(Debug)]
pub struct Script {
    pub steps: Vec<OsStep>,
    /// The current step.
    pub at: usize,
    /// Whether the script ends after the current step because of an earlier failure.
    pub ending: bool,
}

/// Where a script is after the step `at`, which succeeded or not: the next step, and
/// whether the script ends after it.
pub open spec fn after_step(steps: Seq<StepView>, at: nat, ending: bool, ok: bool) -> (
    nat,
    bool,
    Progress,
) {
    if ending || (!ok && steps[at as int].on_failure is Abort) {
        (at, ending, Progress::Failed)
    } else {
        let deferred = !ok && steps[at as int].on_failure is AfterNext;
        if at + 1 < steps.len() {
            (at + 1, deferred, Progress::Running)
        } else if deferred {
            (at, ending, Progress::Failed)
        } else {
            (at + 1, false, Progress::Done)
        }
    }
}

impl Script {
    pub open spec fn wf(self) -> bool {
        self.at <= self.steps@.len()
    }

    /// Begins a script.
    pub fn start(steps: Vec<OsStep>) -> (r: (Script, Progress))
        ensures
            r.0.wf(),
            r.0.steps == steps,
            r.0.at == 0,
            !r.0.ending,
            r.1 == if steps@.len() == 0 {
                Progress::Done
            } else {
                Progress::Running
            },
    {
        let progress = if steps.len() == 0 {
            Progress::Done
        } else {
            Progress::Running
        };
        (Script { steps, at: 0, ending: false }, progress)
    }

    /// The current step.
    pub fn current(&self) -> (r: &OsStep)
        requires
            self.at < self.steps@.len(),
        ensures
            r == self.steps@[self.at as int],
    {
        &self.steps[self.at]
    }

    /// Takes whether the current step succeeded, and moves on.
    pub fn next(&mut self, ok: bool) -> (r: Progress)
        requires
            old(self).at < old(self).steps@.len(),
        ensures
            final(self).wf(),
            final(self).steps == old(self).steps,
            (final(self).at as nat, final(self).ending, r) == after_step(
                step_views(old(self).steps@),
                old(self).at as nat,
                old(self).ending,
                ok,
            ),
            r is Running ==> final(self).at == old(self).at + 1 && final(self).at
                < final(self).steps@.len(),
    {
        assert(step_views(self.steps@)[self.at as int] == self.steps@[self.at as int]@);
        let on_failure = self.steps[self.at].on_failure;
        if self.ending || (!ok && on_failure == OnFailure::Abort) {
            return Progress::Failed;
        }
        let deferred = !ok && on_failure == OnFailure::AfterNext;
        if self.at < self.steps.len() - 1 {
            self.at = self.at + 1;
            self.ending = deferred;
            Progress::Running
        } else if deferred {
            Progress::Failed
        } else {
            self.at = self.at + 1;
            self.ending = false;
            Progress::Done
        }
    }
}

/// The steps are taken one after the other. A failure ends the script at once, or after the
/// next step, which is still taken, or not at all, as the step says; and without a failure it
/// goes on to the last step.
pub proof fn law_steps_are_taken_in_order(steps: Seq<StepView>, at: nat, ending: bool, ok: bool)
    requires
        at < steps.len(),
    ensures
        ({
            let (next, ends, progress) = after_step(steps, at, ending, ok);
            let on_failure = steps[at as int].on_failure;
            let last = at + 1 == steps.len();
            &&& progress is Running ==> next == at + 1 && !last
            &&& progress is Done ==> last && !ending && (ok || on_failure is Ignore)
            &&& progress is Failed ==> ending || !ok && (on_failure is Abort || last
                && on_failure is AfterNext)
            &&& ending ==> progress is Failed
            &&& !ok && on_failure is Abort ==> progress is Failed
            &&& !ending && !ok && on_failure is AfterNext && !last ==> progress is Running && ends
            &&& progress is Running && ends ==> !ok && on_failure is AfterNext
        }),
{
}

/// How a script ends whose step `i` succeeds if and only if `oks[i]`, from the step
/// `at` on.
pub open spec fn script_end(steps: Seq<StepView>, oks: Seq<bool>, at: nat, ending: bool) -> Progress
    decreases steps.len() - at,
{
    if at >= steps.len() {
        Progress::Done
    } else {
        let (next, ends, progress) = after_step(steps, at, ending, oks[at as int]);
        if progress is Running && next > at {
            script_end(steps, oks, next, ends)
        } else {
            progress
        }
    }
}

/// Whether a step from `at` on fails that must not.
pub open spec fn fails_from(steps: Seq<StepView>, oks: Seq<bool>, at: nat) -> bool {
    exists|i: int|
        at <= i < steps.len() && !oks[i] && !((#[trigger] steps[i]).on_failure is Ignore)
}

/// A script succeeds if and only if every step succeeds whose failure is not ignored.
pub proof fn law_script_succeeds_unless_a_step_fails(steps: Seq<StepView>, oks: Seq<bool>)
    requires
        oks.len() == steps.len(),
    ensures
        script_end(steps, oks, 0, false) is Done <==> !fails_from(steps, oks, 0),
        script_end(steps, oks, 0, false) is Failed <==> fails_from(steps, oks, 0),
{
    lemma_script_end(steps, oks, 0, false);
}

proof fn lemma_script_end(steps: Seq<StepView>, oks: Seq<bool>, at: nat, ending: bool)
    requires
        oks.len() == steps.len(),
        at <= steps.len(),
        ending ==> at < steps.len(),
    ensures
        script_end(steps, oks, at, ending) is Done <==> !ending && !fails_from(steps, oks, at),
        script_end(steps, oks, at, ending) is Failed <==> ending || fails_from(steps, oks, at),
    decreases steps.len() - at,
{
    if at < steps.len() {
        let ok = oks[at as int];
        let (next, ends, progress) = after_step(steps, at, ending, ok);
        if progress is Running {
            lemma_script_end(steps, oks, next, ends);
        }
        if !ok && !(steps[at as int].on_failure is Ignore) {
            assert(fails_from(steps, oks, at));
        } else {
            assert(fails_from(steps, oks, at) <==> fails_from(steps, oks, at + 1)) by {
                if fails_from(steps, oks, at) {
                    let i = choose|i: int|
                        at <= i < steps.len() && !oks[i] && !((
                        #[trigger] steps[i]).on_failure is Ignore);
                    assert(i != at);
                    assert(at + 1 <= i < steps.len() && !oks[i] && !(steps[i].on_failure is Ignore));
                }
            }
        }
    }
}

} // verus!
