//! Early-boot initialization.
//!
//! Initialization is a machine: it names one action at a time and takes its outcome.

use vstd::prelude::*;
use crate::script::{run, run_step, texts, OnFailure, OsAction, OsStep, StepView};
use crate::system::data_partition::PartitionConfig;
use crate::text::{contains_str, join, joined, pieces, split_at, split_whitespace, views, words};

pub mod boot_runs;
pub mod bootstrap;
pub mod error_shell;
pub mod handoff;
pub mod overlay;
pub mod persist;
pub mod state_runs;
pub mod state_setup;

verus! {

/// Where the partitions are mounted.
#[derive(Debug)]
pub struct MountPoints {
    pub config: String,
    pub data: String,
    pub system: String,
}

/// The directory of the state of the running system.
pub fn state_dir() -> (r: &'static str)
    ensures
        r@ == "/run/rugix/state"@,
{
    "/run/rugix/state"
}

/// Whether quiet initialization is requested by the parameters.
pub open spec fn asks_quiet(cmdline: Seq<char>) -> bool {
    words(cmdline).contains("rugix.init.quiet"@)
}

/// Whether quiet initialization is requested on the kernel command line.
pub fn init_quiet(cmdline: &str) -> (r: bool)
    ensures
        r == asks_quiet(cmdline@),
{
    let params = split_whitespace(cmdline);
    let r = contains_str(&params, "rugix.init.quiet");
    proof {
        let all = words(cmdline@);
        assert(views(params@) == all);
        if r {
            assert(all.contains("rugix.init.quiet"@));
        }
    }
    r
}

/// The value of a result, where a failure is of no consequence.
pub fn log_ignored_error<T, E>(result: Result<T, E>) -> (r: Option<T>)
    ensures
        r == match result {
            Ok(value) => Some(value),
            Err(_) => None,
        },
{
    match result {
        Ok(value) => Some(value),
        Err(_) => None,
    }
}

/// Directories that programs are always looked for in, the first one first.
pub open spec fn default_dirs() -> Seq<Seq<char>> {
    seq![
        "/usr/local/sbin"@,
        "/usr/local/bin"@,
        "/usr/sbin"@,
        "/usr/bin"@,
        "/sbin"@,
        "/bin"@,
    ]
}

/// The search path with the first `n` default directories added to the front, from the
/// `n`-th backwards, where they are missing.
pub open spec fn with_defaults(dirs: Seq<Seq<char>>, n: nat) -> Seq<Seq<char>>
    decreases n,
{
    if n == 0 {
        dirs
    } else {
        let dir = default_dirs()[n - 1];
        with_defaults(
            if dirs.contains(dir) {
                dirs
            } else {
                seq![dir] + dirs
            },
            (n - 1) as nat,
        )
    }
}

/// Adds the default directories to a search path, where they are missing.
///
/// Every default directory is on the resulting path, and so is every directory that was
/// on it before.
pub fn merge_search_path(dirs: Vec<String>) -> (r: Vec<String>)
    ensures
        views(r@) == with_defaults(views(dirs@), 6),
        forall|i: int| 0 <= i < 6 ==> views(r@).contains(#[trigger] default_dirs()[i]),
        forall|dir: Seq<char>|
            views(dirs@).contains(dir) ==> #[trigger] views(r@).contains(dir),
{
    let defaults = [
        "/usr/local/sbin",
        "/usr/local/bin",
        "/usr/sbin",
        "/usr/bin",
        "/sbin",
        "/bin",
    ];
    assert(texts(defaults@) =~= default_dirs());
    let ghost original = views(dirs@);
    let mut merged = dirs;
    let mut n: usize = 6;
    while n > 0
        invariant
            n <= 6,
            texts(defaults@) == default_dirs(),
            defaults@.len() == 6,
            with_defaults(original, 6) == with_defaults(views(merged@), n as nat),
        decreases n,
    {
        let ghost before = views(merged@);
        assert(defaults@[n - 1]@ == default_dirs()[n - 1]);
        if !contains_str(&merged, defaults[n - 1]) {
            merged.insert(0, defaults[n - 1].to_owned());
            assert(views(merged@) =~= seq![default_dirs()[n - 1]] + before);
        }
        n = n - 1;
    }
    proof {
        lemma_defaults(original, 6);
    }
    merged
}

/// The search path that programs are looked for on: the given one with the default
/// directories added.
pub open spec fn search_path(path: Option<Seq<char>>) -> Seq<char> {
    match path {
        Some(path) => joined(with_defaults(pieces(path, ':'), 6), ":"@),
        None => "/usr/local/sbin:/usr/local/bin:/usr/sbin:/usr/bin:/sbin:/bin"@,
    }
}

/// Computes the search path from the one that is set, if any.
pub fn compute_search_path(path: Option<&str>) -> (r: String)
    ensures
        r@ == search_path(
            match path {
                Some(path) => Some(path@),
                None => None,
            },
        ),
{
    match path {
        Some(path) => join(&merge_search_path(split_at(path, ':')), ":"),
        None => "/usr/local/sbin:/usr/local/bin:/usr/sbin:/usr/bin:/sbin:/bin".to_owned(),
    }
}

proof fn lemma_defaults(dirs: Seq<Seq<char>>, n: nat)
    requires
        n <= 6,
    ensures
        forall|i: int| 0 <= i < n ==> with_defaults(dirs, n).contains(#[trigger] default_dirs()[i]),
        forall|dir: Seq<char>| dirs.contains(dir) ==> #[trigger] with_defaults(dirs, n).contains(dir),
    decreases n,
{
    if n > 0 {
        let dir = default_dirs()[n - 1];
        let next = if dirs.contains(dir) {
            dirs
        } else {
            seq![dir] + dirs
        };
        lemma_defaults(next, (n - 1) as nat);
        assert(next.contains(dir)) by {
            if !dirs.contains(dir) {
                assert(next[0] == dir);
            }
        }
        assert(with_defaults(next, (n - 1) as nat).contains(dir));
        assert forall|i: int| 0 <= i < n implies with_defaults(dirs, n).contains(
            #[trigger] default_dirs()[i],
        ) by {
            if i == n - 1 {
                assert(default_dirs()[i] == dir);
            }
        }
        assert forall|d: Seq<char>| dirs.contains(d) implies #[trigger] with_defaults(
            dirs,
            n,
        ).contains(d) by {
            if !dirs.contains(dir) {
                let i = choose|i: int| 0 <= i < dirs.len() && dirs[i] == d;
                assert(next[i + 1] == d);
            }
            assert(next.contains(d));
            assert(with_defaults(next, (n - 1) as nat).contains(d));
        }
    }
}

/// Whether a directory is one of the first `n` default ones and is missing on a search path.
pub open spec fn is_missing_default(dirs: Seq<Seq<char>>, n: nat, dir: Seq<char>) -> bool {
    !dirs.contains(dir) && exists|k: int|
        0 <= k < n && #[trigger] default_dirs()[k] == dir
}

/// Default directories are only added to a search path where they are missing, and in front
/// of it: what was on it stays as it was, at the end.
pub proof fn law_search_path_is_only_added_to(dirs: Seq<Seq<char>>, n: nat)
    requires
        n <= 6,
    ensures
        dirs.is_suffix_of(with_defaults(dirs, n)),
        forall|i: int|
            0 <= i < with_defaults(dirs, n).len() - dirs.len() ==> is_missing_default(
                dirs,
                n,
                #[trigger] with_defaults(dirs, n)[i],
            ),
    decreases n,
{
    if n > 0 {
        let dir = default_dirs()[n - 1];
        let next = if dirs.contains(dir) {
            dirs
        } else {
            seq![dir] + dirs
        };
        let m = (n - 1) as nat;
        law_search_path_is_only_added_to(next, m);
        let all = with_defaults(dirs, n);
        assert(all == with_defaults(next, m));
        assert(all.subrange(all.len() - next.len(), all.len() as int) =~= next);
        assert(all.subrange(all.len() - dirs.len(), all.len() as int) =~= dirs) by {
            assert forall|j: int| 0 <= j < dirs.len() implies all[all.len() - dirs.len() + j]
                == dirs[j] by {
                assert(next[next.len() - dirs.len() + j] == dirs[j]);
                assert(all.subrange(all.len() - next.len(), all.len() as int)[next.len()
                    - dirs.len() + j] == next[next.len() - dirs.len() + j]);
            }
        }
        assert forall|i: int| 0 <= i < all.len() - dirs.len() implies is_missing_default(
            dirs,
            n,
            #[trigger] all[i],
        ) by {
            if i < all.len() - next.len() {
                assert(is_missing_default(next, m, all[i]));
                if dirs.contains(all[i]) {
                    let k = choose|k: int| 0 <= k < dirs.len() && dirs[k] == all[i];
                    assert(next[next.len() - dirs.len() + k] == all[i]);
                }
                let k = choose|k: int| 0 <= k < m && #[trigger] default_dirs()[k] == all[i];
                assert(default_dirs()[k] == all[i]);
            } else {
                assert(all.subrange(all.len() - next.len(), all.len() as int)[0] == next[0]);
                assert(default_dirs()[n - 1] == all[i]);
            }
        }
    } else {
        assert(dirs.subrange(0, dirs.len() as int) =~= dirs);
    }
}

/// Filesystems that everything else needs.
#[derive(Debug, Clone, Copy, PartialEq, Eq, Structural)]
pub enum Essential {
    Proc,
    Sys,
    Run,
}

impl Essential {
    pub open spec fn path_text(self) -> Seq<char> {
        match self {
            Essential::Proc => "/proc"@,
            Essential::Sys => "/sys"@,
            Essential::Run => "/run"@,
        }
    }

    /// Where the filesystem is mounted.
    pub fn path(self) -> (r: &'static str)
        ensures
            r@ == self.path_text(),
    {
        match self {
            Essential::Proc => "/proc",
            Essential::Sys => "/sys",
            Essential::Run => "/run",
        }
    }

    pub open spec fn step_view(self) -> StepView {
        run_step(
            match self {
                Essential::Proc => seq![
                    "/usr/bin/env"@,
                    "mount"@,
                    "-t"@,
                    "proc"@,
                    "proc"@,
                    "/proc"@,
                ],
                Essential::Sys => seq!["/usr/bin/env"@, "mount"@, "-t"@, "sysfs"@, "sys"@, "/sys"@],
                Essential::Run => seq!["/usr/bin/env"@, "mount"@, "-t"@, "tmpfs"@, "tmp"@, "/run"@],
            },
            OnFailure::Ignore,
        )
    }

    /// Mounting the filesystem.
    pub fn mount_step(self) -> (r: OsStep)
        ensures
            r@ == self.step_view(),
    {
        match self {
            Essential::Proc => {
                let args = ["/usr/bin/env", "mount", "-t", "proc", "proc", "/proc"];
                assert(texts(args@)
                    =~= seq!["/usr/bin/env"@, "mount"@, "-t"@, "proc"@, "proc"@, "/proc"@]);
                run(&args, OnFailure::Ignore)
            },
            Essential::Sys => {
                let args = ["/usr/bin/env", "mount", "-t", "sysfs", "sys", "/sys"];
                assert(texts(args@)
                    =~= seq!["/usr/bin/env"@, "mount"@, "-t"@, "sysfs"@, "sys"@, "/sys"@]);
                run(&args, OnFailure::Ignore)
            },
            Essential::Run => {
                let args = ["/usr/bin/env", "mount", "-t", "tmpfs", "tmp", "/run"];
                assert(texts(args@)
                    =~= seq!["/usr/bin/env"@, "mount"@, "-t"@, "tmpfs"@, "tmp"@, "/run"@]);
                run(&args, OnFailure::Ignore)
            },
        }
    }
}

/// Each of the filesystems is mounted where it belongs, as what it is.
pub proof fn law_essential_is_mounted_at_its_path(filesystem: Essential)
    ensures
        filesystem.step_view().action matches OsAction::Run { args, .. } && {
            &&& args.len() == 6
            &&& args[1] == "mount"@ && args[2] == "-t"@
            &&& args.last() == filesystem.path_text()
            &&& args[3] == match filesystem {
                Essential::Proc => "proc"@,
                Essential::Sys => "sysfs"@,
                Essential::Run => "tmpfs"@,
            }
        },
{
}

/// Mounting a partition read-only.
pub open spec fn mount_readonly_step(device: Seq<char>, mount_point: Seq<char>) -> StepView {
    run_step(
        seq!["/usr/bin/env"@, "mount"@, "-o"@, "ro"@, device, mount_point],
        OnFailure::Abort,
    )
}

/// Mounting a partition read-only.
pub fn mount_readonly(device: &str, mount_point: &str) -> (r: OsStep)
    ensures
        r@ == mount_readonly_step(device@, mount_point@),
{
    let args = ["/usr/bin/env", "mount", "-o", "ro", device, mount_point];
    assert(texts(args@) =~= seq!["/usr/bin/env"@, "mount"@, "-o"@, "ro"@, device@, mount_point@]);
    run(&args, OnFailure::Abort)
}

/// Making a mounted filesystem writable, or not.
pub open spec fn remount_step(mount_point: Seq<char>, writable: bool) -> StepView {
    run_step(
        seq![
            "/usr/bin/env"@,
            "mount"@,
            "-o"@,
            if writable {
                "remount,rw"@
            } else {
                "remount,ro"@
            },
            mount_point,
        ],
        OnFailure::Abort,
    )
}

/// Making a mounted filesystem writable, or not.
pub fn remount(mount_point: &str, writable: bool) -> (r: OsStep)
    ensures
        r@ == remount_step(mount_point@, writable),
{
    let option = if writable {
        "remount,rw"
    } else {
        "remount,ro"
    };
    let args = ["/usr/bin/env", "mount", "-o", option, mount_point];
    assert(texts(args@) =~= seq!["/usr/bin/env"@, "mount"@, "-o"@, option@, mount_point@]);
    run(&args, OnFailure::Abort)
}

/// How the config partition is found.
#[derive(Debug, Clone, Copy, PartialEq, Eq, Structural)]
pub enum ConfigPartitionChoice {
    /// By its number on the system disk.
    Number(u32),
    /// By the path of its device.
    Device,
    /// Not at all.
    Missing,
}

/// How the config partition is found: by its number, else by its device. Without any
/// configuration it is the first partition.
pub fn choose_config_partition(config: &Option<PartitionConfig>) -> (r: ConfigPartitionChoice)
    ensures
        r == match *config {
            Some(partition) => match partition.partition {
                Some(number) => ConfigPartitionChoice::Number(number),
                None => if partition.device is Some {
                    ConfigPartitionChoice::Device
                } else {
                    ConfigPartitionChoice::Missing
                },
            },
            None => ConfigPartitionChoice::Number(1),
        },
{
    match config {
        Some(partition) => match partition.partition {
            Some(number) => ConfigPartitionChoice::Number(number),
            None => if partition.device.is_some() {
                ConfigPartitionChoice::Device
            } else {
                ConfigPartitionChoice::Missing
            },
        },
        None => ConfigPartitionChoice::Number(1),
    }
}

/// Whether the underlying init is started after a failure: only where the running system
/// is the one that is booted by default, and a failure would not be recovered from
/// otherwise.
pub fn should_exec_underlying_init_after_error(
    current_system_is_committed: bool,
    userspace_failure_recovery: Option<bool>,
) -> (r: bool)
    ensures
        r == (current_system_is_committed && userspace_failure_recovery != Some(true)),
{
    current_system_is_committed && match userspace_failure_recovery {
        Some(recovers) => !recovers,
        None => true,
    }
}

/// Why initialization failed.
#[derive(Debug, Clone, Copy, PartialEq, Eq, Structural)]
pub enum InitError {
    /// Unable to determine system device.
    NoSystemDevice,
    /// Unable to determine system root.
    NoSystemRoot,
    /// Bootstrapping requires a config partition.
    NoConfigPartition,
    /// The state could not be set up.
    StateSetup,
    /// The last action failed.
    ActionFailed,
    /// The outcome is not one of the last action.
    UnexpectedOutcome,
}

/// What initialization wants done next.
#[derive(Debug, Clone, Copy, PartialEq, Eq, Structural)]
pub enum InitAction {
    /// Find out whether a filesystem is mounted.
    ProbeMounted(Essential),
    /// Mount a filesystem.
    Mount(Essential),
    /// Load the `boot` hooks.
    LoadBootHooks,
    /// Run the `pre-init` hooks.
    RunPreInit,
    /// Load the system configuration.
    LoadConfig,
    /// Find the device of the running system.
    FindDevice,
    /// Find the disk of the running system.
    FindRoot,
    /// Find the config partition.
    FindConfigPartition(ConfigPartitionChoice),
    /// Create the directory where the config partition is mounted.
    CreateConfigMountPoint,
    /// Mount the config partition read-only.
    MountConfig,
    /// Look for the markers on the config partition.
    ProbeMarkers,
    /// Make the config partition writable, or not.
    RemountConfig { writable: bool },
    /// Bootstrap the device.
    Bootstrap,
    /// Remove the marker `.rugix/bootstrap`, or `rugix/bootstrap`.
    RemoveBootstrapMarker { dotted: bool },
    /// Wipe the data partition.
    WipeData,
    /// Remove the marker `.rugix/wipe-data`.
    RemoveWipeMarker,
    /// Find the slots and groups of the system.
    InitializeSystem,
    /// Find out which group is booted by default.
    QueryDefault,
    /// Set up the state and hand over to the init of the system.
    SetupState { requires_commit: bool },
    /// Hand over to the init of the system without any state.
    ExecUnderlyingInit,
    /// Initialization returned.
    Done,
    /// Initialization failed.
    Fail(InitError),
}

/// Outcome of an action.
#[derive(Debug, Clone, Copy, PartialEq, Eq, Structural)]
pub enum InitEvent {
    /// The action succeeded.
    Done,
    /// The action failed.
    Failed,
    /// What is looked for is not there.
    NotFound,
    /// Whether the filesystem is mounted.
    Mounted(bool),
    /// How the config partition is to be found.
    Config(ConfigPartitionChoice),
    /// Which markers are there.
    Markers { dotted: bool, plain: bool, wipe: bool },
    /// The group that is booted by default, where that is known, and the active one.
    Groups { default: Option<usize>, active: Option<usize> },
    /// The state could not be set up; whether the boot flow recovers from that.
    SetupFailed { userspace_failure_recovery: Option<bool> },
}

/// Progress of initialization.
#[derive(Debug, Clone, Copy, PartialEq, Eq, Structural)]
pub enum InitPhase {
    Probing(Essential),
    Mounting(Essential),
    LoadingHooks,
    PreInit,
    LoadingConfig,
    FindingDevice,
    FindingRoot,
    FindingConfigPartition,
    CreatingMountPoint,
    MountingConfig,
    ProbingMarkers,
    MakingWritable,
    Bootstrapping,
    RemovingBootstrapMarker,
    Wiping,
    RemovingWipeMarker,
    MakingReadonly,
    InitializingSystem,
    QueryingDefault,
    SettingUp,
    ExecutingInit,
    Finished,
}

/// Initialization.
#[derive(Debug, Clone, Copy)]
pub struct Init {
    pub phase: InitPhase,
    /// How the config partition is to be found.
    pub choice: ConfigPartitionChoice,
    /// Which bootstrap marker is there: the dotted one or the plain one.
    pub marker: Option<bool>,
    /// Whether a wipe is pending.
    pub wipe: bool,
    /// Whether the running system is the one that is booted by default.
    pub committed: bool,
}

/// A phase and the action that begins it.
pub type InitStep = (InitPhase, InitAction);

/// The end of an initialization that failed.
pub open spec fn init_failed(error: InitError) -> InitStep {
    (InitPhase::Finished, InitAction::Fail(error))
}

/// The step after a filesystem is taken care of.
pub open spec fn after_essential(filesystem: Essential) -> InitStep {
    match filesystem {
        Essential::Proc => (
            InitPhase::Probing(Essential::Sys),
            InitAction::ProbeMounted(Essential::Sys),
        ),
        Essential::Sys => (
            InitPhase::Probing(Essential::Run),
            InitAction::ProbeMounted(Essential::Run),
        ),
        Essential::Run => (InitPhase::LoadingHooks, InitAction::LoadBootHooks),
    }
}

/// The bootstrap marker to go by: the dotted one where it is there.
pub open spec fn bootstrap_marker(dotted: bool, plain: bool) -> Option<bool> {
    if dotted {
        Some(true)
    } else if plain {
        Some(false)
    } else {
        None
    }
}

/// The step that wipes the data partition, where that is pending.
pub open spec fn to_wipe(wipe: bool) -> InitStep {
    if wipe {
        (InitPhase::Wiping, InitAction::WipeData)
    } else {
        (InitPhase::MakingReadonly, InitAction::RemountConfig { writable: false })
    }
}

impl Init {
    /// The step that follows an outcome.
    pub open spec fn step(self, event: InitEvent) -> InitStep {
        match (self.phase, event) {
            (InitPhase::Probing(filesystem), InitEvent::Mounted(mounted)) => if mounted {
                after_essential(filesystem)
            } else {
                (InitPhase::Mounting(filesystem), InitAction::Mount(filesystem))
            },
            (InitPhase::Mounting(filesystem), InitEvent::Done) => after_essential(filesystem),
            (InitPhase::Mounting(filesystem), InitEvent::Failed) => after_essential(filesystem),
            (InitPhase::LoadingHooks, InitEvent::Done) => (
                InitPhase::PreInit,
                InitAction::RunPreInit,
            ),
            (InitPhase::PreInit, InitEvent::Done) => (
                InitPhase::LoadingConfig,
                InitAction::LoadConfig,
            ),
            (InitPhase::PreInit, InitEvent::Failed) => (
                InitPhase::LoadingConfig,
                InitAction::LoadConfig,
            ),
            (InitPhase::LoadingConfig, InitEvent::Config(_)) => (
                InitPhase::FindingDevice,
                InitAction::FindDevice,
            ),
            (InitPhase::FindingDevice, InitEvent::Done) => (
                InitPhase::FindingRoot,
                InitAction::FindRoot,
            ),
            (InitPhase::FindingDevice, InitEvent::NotFound) => init_failed(
                InitError::NoSystemDevice,
            ),
            (InitPhase::FindingRoot, InitEvent::Done) => if self.choice is Missing {
                init_failed(InitError::NoConfigPartition)
            } else {
                (
                    InitPhase::FindingConfigPartition,
                    InitAction::FindConfigPartition(self.choice),
                )
            },
            (InitPhase::FindingRoot, InitEvent::NotFound) => init_failed(InitError::NoSystemRoot),
            (InitPhase::FindingConfigPartition, InitEvent::Done) => (
                InitPhase::CreatingMountPoint,
                InitAction::CreateConfigMountPoint,
            ),
            (InitPhase::FindingConfigPartition, InitEvent::NotFound) => init_failed(
                InitError::NoConfigPartition,
            ),
            (InitPhase::CreatingMountPoint, InitEvent::Done) => (
                InitPhase::MountingConfig,
                InitAction::MountConfig,
            ),
            (InitPhase::CreatingMountPoint, InitEvent::Failed) => (
                InitPhase::MountingConfig,
                InitAction::MountConfig,
            ),
            (InitPhase::MountingConfig, InitEvent::Done) => (
                InitPhase::ProbingMarkers,
                InitAction::ProbeMarkers,
            ),
            (InitPhase::ProbingMarkers, InitEvent::Markers { dotted, plain, wipe }) => if dotted
                || plain || wipe {
                (InitPhase::MakingWritable, InitAction::RemountConfig { writable: true })
            } else {
                (InitPhase::InitializingSystem, InitAction::InitializeSystem)
            },
            (InitPhase::MakingWritable, InitEvent::Done) => if self.marker is Some {
                (InitPhase::Bootstrapping, InitAction::Bootstrap)
            } else {
                to_wipe(self.wipe)
            },
            (InitPhase::Bootstrapping, InitEvent::Done) => (
                InitPhase::RemovingBootstrapMarker,
                InitAction::RemoveBootstrapMarker { dotted: self.marker == Some(true) },
            ),
            (InitPhase::RemovingBootstrapMarker, InitEvent::Done) => to_wipe(self.wipe),
            (InitPhase::Wiping, InitEvent::Done) => (
                InitPhase::RemovingWipeMarker,
                InitAction::RemoveWipeMarker,
            ),
            (InitPhase::RemovingWipeMarker, InitEvent::Done) => to_wipe(false),
            (InitPhase::MakingReadonly, InitEvent::Done) => (
                InitPhase::InitializingSystem,
                InitAction::InitializeSystem,
            ),
            (InitPhase::InitializingSystem, InitEvent::Done) => (
                InitPhase::QueryingDefault,
                InitAction::QueryDefault,
            ),
            (InitPhase::QueryingDefault, InitEvent::Groups { default, active }) => (
                InitPhase::SettingUp,
                InitAction::SetupState { requires_commit: default != active },
            ),
            (InitPhase::SettingUp, InitEvent::Done) => (InitPhase::Finished, InitAction::Done),
            (
                InitPhase::SettingUp,
                InitEvent::SetupFailed { userspace_failure_recovery },
            ) => if self.committed && userspace_failure_recovery != Some(true) {
                (InitPhase::ExecutingInit, InitAction::ExecUnderlyingInit)
            } else {
                init_failed(InitError::StateSetup)
            },
            (InitPhase::ExecutingInit, InitEvent::Done) => init_failed(InitError::StateSetup),
            (InitPhase::ExecutingInit, InitEvent::Failed) => init_failed(InitError::StateSetup),
            (_, InitEvent::Failed) => init_failed(InitError::ActionFailed),
            _ => init_failed(InitError::UnexpectedOutcome),
        }
    }

    /// What is remembered of an outcome.
    pub open spec fn remembered(self, event: InitEvent) -> Init {
        match (self.phase, event) {
            (InitPhase::LoadingConfig, InitEvent::Config(choice)) => Init { choice, ..self },
            (InitPhase::ProbingMarkers, InitEvent::Markers { dotted, plain, wipe }) => Init {
                marker: bootstrap_marker(dotted, plain),
                wipe,
                ..self
            },
            (InitPhase::QueryingDefault, InitEvent::Groups { default, active }) => Init {
                committed: default is Some && default == active,
                ..self
            },
            _ => self,
        }
    }

    /// Begins initialization.
    pub fn begin() -> (r: (Init, InitAction))
        ensures
            r.0 == (Init {
                phase: InitPhase::Probing(Essential::Proc),
                choice: ConfigPartitionChoice::Missing,
                marker: None,
                wipe: false,
                committed: false,
            }),
            r.1 == InitAction::ProbeMounted(Essential::Proc),
    {
        (
            Init {
                phase: InitPhase::Probing(Essential::Proc),
                choice: ConfigPartitionChoice::Missing,
                marker: None,
                wipe: false,
                committed: false,
            },
            InitAction::ProbeMounted(Essential::Proc),
        )
    }

    fn next_essential(filesystem: Essential) -> (r: InitStep)
        ensures
            r == after_essential(filesystem),
    {
        match filesystem {
            Essential::Proc => (
                InitPhase::Probing(Essential::Sys),
                InitAction::ProbeMounted(Essential::Sys),
            ),
            Essential::Sys => (
                InitPhase::Probing(Essential::Run),
                InitAction::ProbeMounted(Essential::Run),
            ),
            Essential::Run => (InitPhase::LoadingHooks, InitAction::LoadBootHooks),
        }
    }

    fn next_wipe(wipe: bool) -> (r: InitStep)
        ensures
            r == to_wipe(wipe),
    {
        if wipe {
            (InitPhase::Wiping, InitAction::WipeData)
        } else {
            (InitPhase::MakingReadonly, InitAction::RemountConfig { writable: false })
        }
    }

    fn fail(error: InitError) -> (r: InitStep)
        ensures
            r == init_failed(error),
    {
        (InitPhase::Finished, InitAction::Fail(error))
    }

    /// Takes the outcome of the last action and names the next one.
    ///
    /// A marker is removed only after what it asks for has succeeded, so that the next
    /// boot tries again otherwise.
    pub fn next(&mut self, event: InitEvent) -> (action: InitAction)
        ensures
            (final(self).phase, action) == old(self).step(event),
            *final(self) == (Init { phase: final(self).phase, ..old(self).remembered(event) }),
            action is RemoveBootstrapMarker ==> old(self).phase is Bootstrapping && event is Done,
            action is RemoveWipeMarker ==> old(self).phase is Wiping && event is Done,
            action is ExecUnderlyingInit ==> old(self).committed,
    {
        match (self.phase, event) {
            (InitPhase::LoadingConfig, InitEvent::Config(choice)) => {
                self.choice = choice;
            },
            (InitPhase::ProbingMarkers, InitEvent::Markers { dotted, plain, wipe }) => {
                self.marker = if dotted {
                    Some(true)
                } else if plain {
                    Some(false)
                } else {
                    None
                };
                self.wipe = wipe;
            },
            (InitPhase::QueryingDefault, InitEvent::Groups { default, active }) => {
                self.committed = match (default, active) {
                    (Some(a), Some(b)) => a == b,
                    _ => false,
                };
            },
            _ => {},
        }
        let (phase, action) = match (self.phase, event) {
            (InitPhase::Probing(filesystem), InitEvent::Mounted(mounted)) => if mounted {
                Self::next_essential(filesystem)
            } else {
                (InitPhase::Mounting(filesystem), InitAction::Mount(filesystem))
            },
            (InitPhase::Mounting(filesystem), InitEvent::Done) => Self::next_essential(filesystem),
            (InitPhase::Mounting(filesystem), InitEvent::Failed) => Self::next_essential(
                filesystem,
            ),
            (InitPhase::LoadingHooks, InitEvent::Done) => (
                InitPhase::PreInit,
                InitAction::RunPreInit,
            ),
            (InitPhase::PreInit, InitEvent::Done) => (
                InitPhase::LoadingConfig,
                InitAction::LoadConfig,
            ),
            (InitPhase::PreInit, InitEvent::Failed) => (
                InitPhase::LoadingConfig,
                InitAction::LoadConfig,
            ),
            (InitPhase::LoadingConfig, InitEvent::Config(_)) => (
                InitPhase::FindingDevice,
                InitAction::FindDevice,
            ),
            (InitPhase::FindingDevice, InitEvent::Done) => (
                InitPhase::FindingRoot,
                InitAction::FindRoot,
            ),
            (InitPhase::FindingDevice, InitEvent::NotFound) => Self::fail(
                InitError::NoSystemDevice,
            ),
            (InitPhase::FindingRoot, InitEvent::Done) => match self.choice {
                ConfigPartitionChoice::Missing => Self::fail(InitError::NoConfigPartition),
                choice => (
                    InitPhase::FindingConfigPartition,
                    InitAction::FindConfigPartition(choice),
                ),
            },
            (InitPhase::FindingRoot, InitEvent::NotFound) => Self::fail(InitError::NoSystemRoot),
            (InitPhase::FindingConfigPartition, InitEvent::Done) => (
                InitPhase::CreatingMountPoint,
                InitAction::CreateConfigMountPoint,
            ),
            (InitPhase::FindingConfigPartition, InitEvent::NotFound) => Self::fail(
                InitError::NoConfigPartition,
            ),
            (InitPhase::CreatingMountPoint, InitEvent::Done) => (
                InitPhase::MountingConfig,
                InitAction::MountConfig,
            ),
            (InitPhase::CreatingMountPoint, InitEvent::Failed) => (
                InitPhase::MountingConfig,
                InitAction::MountConfig,
            ),
            (InitPhase::MountingConfig, InitEvent::Done) => (
                InitPhase::ProbingMarkers,
                InitAction::ProbeMarkers,
            ),
            (InitPhase::ProbingMarkers, InitEvent::Markers { dotted, plain, wipe }) => if dotted
                || plain || wipe {
                (InitPhase::MakingWritable, InitAction::RemountConfig { writable: true })
            } else {
                (InitPhase::InitializingSystem, InitAction::InitializeSystem)
            },
            (InitPhase::MakingWritable, InitEvent::Done) => if self.marker.is_some() {
                (InitPhase::Bootstrapping, InitAction::Bootstrap)
            } else {
                Self::next_wipe(self.wipe)
            },
            (InitPhase::Bootstrapping, InitEvent::Done) => {
                let dotted = match self.marker {
                    Some(dotted) => dotted,
                    None => false,
                };
                (
                    InitPhase::RemovingBootstrapMarker,
                    InitAction::RemoveBootstrapMarker { dotted },
                )
            },
            (InitPhase::RemovingBootstrapMarker, InitEvent::Done) => Self::next_wipe(self.wipe),
            (InitPhase::Wiping, InitEvent::Done) => (
                InitPhase::RemovingWipeMarker,
                InitAction::RemoveWipeMarker,
            ),
            (InitPhase::RemovingWipeMarker, InitEvent::Done) => Self::next_wipe(false),
            (InitPhase::MakingReadonly, InitEvent::Done) => (
                InitPhase::InitializingSystem,
                InitAction::InitializeSystem,
            ),
            (InitPhase::InitializingSystem, InitEvent::Done) => (
                InitPhase::QueryingDefault,
                InitAction::QueryDefault,
            ),
            (InitPhase::QueryingDefault, InitEvent::Groups { default, active }) => {
                let agree = match (default, active) {
                    (Some(a), Some(b)) => a == b,
                    (None, None) => true,
                    _ => false,
                };
                (InitPhase::SettingUp, InitAction::SetupState { requires_commit: !agree })
            },
            (InitPhase::SettingUp, InitEvent::Done) => (InitPhase::Finished, InitAction::Done),
            (
                InitPhase::SettingUp,
                InitEvent::SetupFailed { userspace_failure_recovery },
            ) => if should_exec_underlying_init_after_error(
                self.committed,
                userspace_failure_recovery,
            ) {
                (InitPhase::ExecutingInit, InitAction::ExecUnderlyingInit)
            } else {
                Self::fail(InitError::StateSetup)
            },
            (InitPhase::ExecutingInit, InitEvent::Done) => Self::fail(InitError::StateSetup),
            (InitPhase::ExecutingInit, InitEvent::Failed) => Self::fail(InitError::StateSetup),
            (_, InitEvent::Failed) => Self::fail(InitError::ActionFailed),
            _ => Self::fail(InitError::UnexpectedOutcome),
        };
        self.phase = phase;
        action
    }
}

/// A failed wipe leaves its marker in place, and the failure is reported.
pub proof fn law_failed_wipe_is_retried(init: Init)
    requires
        init.phase is Wiping,
    ensures
        init.step(InitEvent::Failed) == init_failed(InitError::ActionFailed),
{
}

} // verus!
