//! The overlay of the root filesystem.

use vstd::prelude::*;
use crate::path::{join, path_join};
use crate::script::{
    no_steps, push_step, run, run_step, step_views, texts, OnFailure, OsAction, OsStep, Step,
    StepView,
};
use crate::state::{OverlayConfig, OverlayFallbackConfig};
use crate::text::{concat, opt_view};

verus! {

/// Directories of an overlay.
#[derive(Debug)]
pub struct OverlayDirs<S> {
    pub base: S,
    pub root: S,
    pub work: S,
}

/// The directories of an overlay that is stored on the data partition, or in memory.
pub open spec fn dirs(in_memory: bool) -> OverlayDirs<Seq<char>> {
    if in_memory {
        OverlayDirs {
            base: "/run/rugix/overlay"@,
            root: "/run/rugix/overlay/root"@,
            work: "/run/rugix/overlay/work"@,
        }
    } else {
        OverlayDirs {
            base: "/run/rugix/mounts/data/overlay"@,
            root: "/run/rugix/mounts/data/overlay/root"@,
            work: "/run/rugix/mounts/data/overlay/work"@,
        }
    }
}

/// Where the changes of the overlay are kept: for each boot group of its own, or in
/// memory.
pub open spec fn upper_dir(
    in_memory: bool,
    state_profile: Seq<char>,
    group: Option<Seq<char>>,
) -> Seq<char> {
    if in_memory {
        "/run/rugix/overlay/upper"@
    } else {
        path_join(
            path_join(state_profile, "overlay"@),
            match group {
                Some(name) => name,
                None => "_unknown"@,
            },
        )
    }
}

/// The options that an overlay is mounted with.
pub open spec fn overlay_options(
    system: Seq<char>,
    upper: Seq<char>,
    work: Seq<char>,
) -> Seq<char> {
    "noatime,lowerdir="@ + system + ",upperdir="@ + upper + ",workdir="@ + work
}

pub open spec fn create_dirs_step(path: Seq<char>, on_failure: OnFailure) -> StepView {
    Step { action: OsAction::CreateDirs { path }, on_failure }
}

pub open spec fn clear_dir_step(path: Seq<char>) -> StepView {
    Step { action: OsAction::RemoveDirAllIfPresent { path }, on_failure: OnFailure::Abort }
}

/// Setting up an overlay anew over the system.
pub open spec fn fresh_overlay_steps(
    directories: OverlayDirs<Seq<char>>,
    upper: Seq<char>,
    system: Seq<char>,
) -> Seq<StepView> {
    seq![
        clear_dir_step(directories.base),
        create_dirs_step(directories.work, OnFailure::Abort),
        create_dirs_step(directories.root, OnFailure::Abort),
        create_dirs_step(upper, OnFailure::Abort),
        run_step(
            seq![
                "/usr/bin/env"@,
                "mount"@,
                "-t"@,
                "overlay"@,
                "overlay"@,
                "-o"@,
                overlay_options(system, upper, directories.work),
                directories.root,
            ],
            OnFailure::Abort,
        ),
        run_step(
            seq![
                "/usr/bin/env"@,
                "mount"@,
                "--rbind"@,
                "/run"@,
                path_join(directories.root, "run"@),
            ],
            OnFailure::Abort,
        ),
    ]
}

/// What is known when the overlay is set up.
#[derive(Debug)]
pub struct OverlayFacts {
    /// Where the system partition is mounted.
    pub system: String,
    pub state_profile: String,
    /// Whether the overlay is kept though it would be discarded.
    pub force_persist: bool,
    /// Name of the active boot group.
    pub active_group: Option<String>,
}

/// The steps that set up an overlay, and the root directory that it leads to.
pub open spec fn overlay_plan(mode: OverlayConfig, facts: OverlayFacts) -> (
    Seq<StepView>,
    Seq<char>,
) {
    let discarded = if mode is Discard && !facts.force_persist {
        seq![clear_dir_step(path_join(facts.state_profile@, "overlay"@))]
    } else {
        Seq::empty()
    };
    match mode {
        OverlayConfig::Disabled => (Seq::empty(), "/"@),
        _ => {
            let in_memory = mode is InMemory;
            (
                discarded + fresh_overlay_steps(
                    dirs(in_memory),
                    upper_dir(
                        in_memory,
                        facts.state_profile@,
                        opt_view(facts.active_group),
                    ),
                    facts.system@,
                ),
                dirs(in_memory).root,
            )
        },
    }
}

fn create_dirs(path: &str, on_failure: OnFailure) -> (r: OsStep)
    ensures
        r@ == create_dirs_step(path@, on_failure),
{
    Step { action: OsAction::CreateDirs { path: path.to_owned() }, on_failure }
}

fn clear_dir(path: &str) -> (r: OsStep)
    ensures
        r@ == clear_dir_step(path@),
{
    Step {
        action: OsAction::RemoveDirAllIfPresent { path: path.to_owned() },
        on_failure: OnFailure::Abort,
    }
}

/// Plans an overlay: the steps that set it up, and the root directory that it leads to.
pub fn setup_root_overlay_once(mode: OverlayConfig, facts: &OverlayFacts) -> (r: (
    Vec<OsStep>,
    String,
))
    ensures
        (step_views(r.0@), r.1@) == overlay_plan(mode, *facts),
{
    let mut steps = no_steps();
    if mode == OverlayConfig::Disabled {
        return (steps, "/".to_owned());
    }
    let overlay_state = join(facts.state_profile.as_str(), "overlay");
    if mode == OverlayConfig::Discard && !facts.force_persist {
        push_step(&mut steps, clear_dir(overlay_state.as_str()));
    }
    let in_memory = mode == OverlayConfig::InMemory;
    let (base, root, work) = if in_memory {
        ("/run/rugix/overlay", "/run/rugix/overlay/root", "/run/rugix/overlay/work")
    } else {
        (
            "/run/rugix/mounts/data/overlay",
            "/run/rugix/mounts/data/overlay/root",
            "/run/rugix/mounts/data/overlay/work",
        )
    };
    let upper = if in_memory {
        "/run/rugix/overlay/upper".to_owned()
    } else {
        match &facts.active_group {
            Some(name) => join(overlay_state.as_str(), name.as_str()),
            None => join(overlay_state.as_str(), "_unknown"),
        }
    };
    push_step(&mut steps, clear_dir(base));
    push_step(&mut steps, create_dirs(work, OnFailure::Abort));
    push_step(&mut steps, create_dirs(root, OnFailure::Abort));
    push_step(&mut steps, create_dirs(upper.as_str(), OnFailure::Abort));
    let lower = concat("noatime,lowerdir=", facts.system.as_str());
    let start = concat(concat(lower.as_str(), ",upperdir=").as_str(), upper.as_str());
    let options = concat(concat(start.as_str(), ",workdir=").as_str(), work);
    let args = [
        "/usr/bin/env",
        "mount",
        "-t",
        "overlay",
        "overlay",
        "-o",
        options.as_str(),
        root,
    ];
    assert(texts(args@) =~= seq![
        "/usr/bin/env"@,
        "mount"@,
        "-t"@,
        "overlay"@,
        "overlay"@,
        "-o"@,
        options@,
        root@,
    ]);
    push_step(&mut steps, run(&args, OnFailure::Abort));
    let run_dir = join(root, "run");
    let bind = ["/usr/bin/env", "mount", "--rbind", "/run", run_dir.as_str()];
    assert(texts(bind@) =~= seq!["/usr/bin/env"@, "mount"@, "--rbind"@, "/run"@, run_dir@]);
    push_step(&mut steps, run(&bind, OnFailure::Abort));
    assert(step_views(steps@) =~= overlay_plan(mode, *facts).0);
    (steps, root.to_owned())
}

/// What the setup of the overlay wants done next.
#[derive(Debug, Clone, Copy, PartialEq, Eq, Structural)]
pub enum OverlayAction {
    /// Set up an overlay.
    Attempt(OverlayConfig),
    /// Remove the log of an earlier fallback.
    ClearFallbackError,
    /// Write down why the configured overlay failed.
    WriteFallbackError,
    /// The overlay is set up.
    Done(OverlayConfig),
    /// No overlay could be set up; whether the fallback was tried.
    Fail { with_fallback: bool },
}

/// Progress of the setup of the overlay.
#[derive(Debug, Clone, Copy, PartialEq, Eq, Structural)]
pub enum OverlayPhase {
    Attempting,
    Clearing,
    Recording,
    FallingBack,
    Finished,
}

/// The setup of the overlay.
#[derive(Debug, Clone, Copy)]
pub struct OverlaySetup {
    pub phase: OverlayPhase,
    pub mode: OverlayConfig,
    pub fallback: Option<OverlayFallbackConfig>,
}

impl OverlaySetup {
    /// Whether a failure is answered with an overlay in memory.
    pub open spec fn falls_back(self) -> bool {
        self.fallback is Some && !(self.mode is Disabled)
            && !(self.mode is InMemory)
    }

    /// The step that follows an action, which succeeded or not.
    pub open spec fn step(self, ok: bool) -> (OverlayPhase, OverlayAction) {
        match self.phase {
            OverlayPhase::Attempting => if ok {
                (OverlayPhase::Clearing, OverlayAction::ClearFallbackError)
            } else if self.falls_back() {
                (OverlayPhase::Recording, OverlayAction::WriteFallbackError)
            } else {
                (OverlayPhase::Finished, OverlayAction::Fail { with_fallback: false })
            },
            OverlayPhase::Clearing => (OverlayPhase::Finished, OverlayAction::Done(self.mode)),
            OverlayPhase::Recording => (
                OverlayPhase::FallingBack,
                OverlayAction::Attempt(OverlayConfig::InMemory),
            ),
            OverlayPhase::FallingBack => if ok {
                (OverlayPhase::Finished, OverlayAction::Done(OverlayConfig::InMemory))
            } else {
                (OverlayPhase::Finished, OverlayAction::Fail { with_fallback: true })
            },
            OverlayPhase::Finished => (
                OverlayPhase::Finished,
                OverlayAction::Fail { with_fallback: false },
            ),
        }
    }

    /// Begins the setup. Unless configured otherwise, the overlay is discarded on every
    /// boot.
    pub fn setup_root_overlay(
        overlay: Option<OverlayConfig>,
        fallback: Option<OverlayFallbackConfig>,
    ) -> (r: (OverlaySetup, OverlayAction))
        ensures
            r.0.phase == OverlayPhase::Attempting,
            r.0.mode == match overlay {
                Some(mode) => mode,
                None => OverlayConfig::Discard,
            },
            r.0.fallback == fallback,
            r.1 == OverlayAction::Attempt(r.0.mode),
    {
        let mode = match overlay {
            Some(mode) => mode,
            None => OverlayConfig::Discard,
        };
        (
            OverlaySetup { phase: OverlayPhase::Attempting, mode, fallback },
            OverlayAction::Attempt(mode),
        )
    }

    /// Takes whether the last action succeeded, and names the next one.
    pub fn next(&mut self, ok: bool) -> (action: OverlayAction)
        ensures
            (final(self).phase, action) == old(self).step(ok),
            final(self).mode == old(self).mode,
            final(self).fallback == old(self).fallback,
    {
        let falls_back = match self.fallback {
            Some(OverlayFallbackConfig::InMemory) => self.mode != OverlayConfig::Disabled
                && self.mode != OverlayConfig::InMemory,
            None => false,
        };
        let (phase, action) = match self.phase {
            OverlayPhase::Attempting => if ok {
                (OverlayPhase::Clearing, OverlayAction::ClearFallbackError)
            } else if falls_back {
                (OverlayPhase::Recording, OverlayAction::WriteFallbackError)
            } else {
                (OverlayPhase::Finished, OverlayAction::Fail { with_fallback: false })
            },
            OverlayPhase::Clearing => (OverlayPhase::Finished, OverlayAction::Done(self.mode)),
            OverlayPhase::Recording => (
                OverlayPhase::FallingBack,
                OverlayAction::Attempt(OverlayConfig::InMemory),
            ),
            OverlayPhase::FallingBack => if ok {
                (OverlayPhase::Finished, OverlayAction::Done(OverlayConfig::InMemory))
            } else {
                (OverlayPhase::Finished, OverlayAction::Fail { with_fallback: true })
            },
            OverlayPhase::Finished => (
                OverlayPhase::Finished,
                OverlayAction::Fail { with_fallback: false },
            ),
        };
        self.phase = phase;
        action
    }
}

/// Setting up an overlay in memory touches nothing on the data partition: none of its
/// steps depends on where the state is kept.
pub proof fn law_overlay_in_memory_leaves_the_state_alone(a: OverlayFacts, b: OverlayFacts)
    requires
        a.system@ == b.system@,
    ensures
        overlay_plan(OverlayConfig::InMemory, a) == overlay_plan(OverlayConfig::InMemory, b),
{
}

/// The overlay of an earlier boot is removed if and only if the overlay is to be discarded
/// and keeping it is not forced.
pub proof fn law_overlay_is_discarded_unless_forced(mode: OverlayConfig, facts: OverlayFacts)
    requires
        path_join(facts.state_profile@, "overlay"@) != dirs(mode is InMemory).base,
    ensures
        overlay_plan(mode, facts).0.contains(
            clear_dir_step(path_join(facts.state_profile@, "overlay"@)),
        ) <==> mode is Discard && !facts.force_persist,
{
    let removal = clear_dir_step(path_join(facts.state_profile@, "overlay"@));
    let steps = overlay_plan(mode, facts).0;
    if mode is Discard && !facts.force_persist {
        assert(steps[0] == removal);
    } else if !(mode is Disabled) {
        assert(steps.len() == 6);
        assert forall|i: int| 0 <= i < 6 implies steps[i] != removal by {
            assert(steps[0] == clear_dir_step(dirs(mode is InMemory).base));
        }
    }
}

} // verus!
