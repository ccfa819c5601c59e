//! The command line interface.

use vstd::prelude::*;
use crate::operations::install::system::SystemRebootMode;
use crate::operations::state::FactoryReset;
use crate::operations::system::RebootSystem;
use crate::system::boot_groups::{group_named, law_group_is_found_by_its_name, BootGroups};

pub mod apps;
pub mod data;
pub mod image;
pub mod runs;
pub mod slots;

verus! {

/// A value of a command line option.
#[derive(Debug, Clone, Copy, PartialEq, Eq, Structural)]
pub enum Boolean {
    True,
    False,
}

/// Manage the data partition.
#[derive(Debug, Clone, Copy, PartialEq, Eq, Structural)]
pub enum DataCommand {
    /// Cryptographically wipe the data partition.
    Wipe { yes: bool, no_reboot: bool },
}

/// Manage the persistent state of the system.
#[derive(Debug)]
pub enum StateCommand {
    /// Perform a factory reset of the system.
    Reset { backup: bool, backup_name: Option<String> },
    /// Configure the root filesystem overlay.
    Overlay(OverlayCommand),
}

/// Configure the root filesystem overlay.
#[derive(Debug, Clone, Copy, PartialEq, Eq, Structural)]
pub enum OverlayCommand {
    /// Set the persistency of the overlay.
    ForcePersist { persist: Boolean },
}

/// How to reboot after an update.
#[derive(Debug, Clone, Copy, PartialEq, Eq, Structural)]
pub enum UpdateRebootType {
    /// Reboot into the newly installed system.
    Yes,
    /// Do nothing.
    No,
    /// Just set the flags without rebooting.
    SetNext,
    /// Set the deferred spare reboot marker.
    Deferred,
}

/// Manage the system.
#[derive(Debug, Clone, Copy, PartialEq, Eq, Structural)]
pub enum SystemCommand {
    /// Print information about the system.
    Info { json: bool },
    /// Make the active system the default.
    Commit,
    /// Reboot the system.
    Reboot { spare: bool },
}

/// Inspect compatibility components and constraints.
#[derive(Debug)]
pub enum ComponentsCommand {
    /// List installed compatibility components.
    List,
    /// Show installed compatibility components with a specific component ID.
    Info { component: String },
    /// Check installed compatibility components for internal consistency.
    Check,
}

/// Unstable experimental commands.
#[derive(Debug, Clone, Copy, PartialEq, Eq, Structural)]
pub enum UnstableCommand {
    /// Set deferred spare reboot flag.
    SetDeferredSpareReboot { value: Boolean },
    PrintSystemInfo,
}

/// Control the boot flow of the system.
#[allow(inconsistent_fields)]
#[derive(Debug)]
pub enum BootCommand {
    /// Mark a boot group as good.
    MarkGood { group: Option<String> },
    /// Mark a boot group as bad.
    MarkBad { group: String },
}

/// Utility commands useful for scripting.
#[derive(Debug)]
pub enum UtilsCommand {
    /// Determine the block device behind a path.
    FindBlockDevice { path: String },
    /// Check whether a path is a mount point.
    IsMountPoint { path: String },
    /// Resolve a partition relative to the main disk or some other block device.
    ResolvePartition { disk: Option<String>, partition: u32 },
}

/// Service manager integration.
#[derive(Debug, Clone, Copy, PartialEq, Eq, Structural)]
pub enum AppsServiceManagerCommand {
    /// Systemd integration.
    Systemd(AppsSystemdCommand),
}

/// Systemd integration.
#[derive(Debug, Clone, Copy, PartialEq, Eq, Structural)]
pub enum AppsSystemdCommand {
    /// Restore app units into the systemd runtime directory.
    RestoreUnits,
}

impl UpdateRebootType {
    /// What follows the installation.
    pub open spec fn as_mode(self) -> SystemRebootMode {
        match self {
            UpdateRebootType::Yes => SystemRebootMode::Yes,
            UpdateRebootType::No => SystemRebootMode::No,
            UpdateRebootType::SetNext => SystemRebootMode::SetNext,
            UpdateRebootType::Deferred => SystemRebootMode::Deferred,
        }
    }

    /// What follows the installation.
    pub fn mode(self) -> (r: SystemRebootMode)
        ensures
            r == self.as_mode(),
    {
        match self {
            UpdateRebootType::Yes => SystemRebootMode::Yes,
            UpdateRebootType::No => SystemRebootMode::No,
            UpdateRebootType::SetNext => SystemRebootMode::SetNext,
            UpdateRebootType::Deferred => SystemRebootMode::Deferred,
        }
    }
}

/// What is done to a flag.
#[derive(Debug, Clone, Copy, PartialEq, Eq, Structural)]
pub enum FlagChange {
    Raise,
    Clear,
}

impl Boolean {
    /// What is done to a flag that is to have this value.
    pub fn flag_change(self) -> (r: FlagChange)
        ensures
            r == if self == Boolean::True {
                FlagChange::Raise
            } else {
                FlagChange::Clear
            },
    {
        match self {
            Boolean::True => FlagChange::Raise,
            Boolean::False => FlagChange::Clear,
        }
    }
}

/// What a command on the state comes down to.
#[derive(Debug)]
pub enum StatePlan {
    Reset(FactoryReset),
    /// Change a state flag.
    Flag { name: &'static str, change: FlagChange },
}

impl StateCommand {
    /// What the command comes down to.
    pub fn plan(self) -> (r: StatePlan)
        ensures
            match (self, r) {
                (StateCommand::Reset { backup, backup_name }, StatePlan::Reset(reset)) => {
                    reset.backup == backup && reset.backup_name == backup_name
                },
                (
                    StateCommand::Overlay(OverlayCommand::ForcePersist { persist }),
                    StatePlan::Flag { name, change },
                ) => {
                    &&& name@ == "force-persist-overlay"@
                    &&& change == if persist == Boolean::True {
                        FlagChange::Raise
                    } else {
                        FlagChange::Clear
                    }
                },
                _ => false,
            },
    {
        match self {
            StateCommand::Reset { backup, backup_name } => StatePlan::Reset(
                FactoryReset { backup, backup_name },
            ),
            StateCommand::Overlay(OverlayCommand::ForcePersist { persist }) => StatePlan::Flag {
                name: "force-persist-overlay",
                change: persist.flag_change(),
            },
        }
    }
}

/// What a command on the system comes down to.
#[derive(Debug, Clone, Copy, PartialEq, Eq, Structural)]
pub enum SystemPlan {
    Show { compact: bool },
    Commit,
    Reboot(RebootSystem),
}

impl SystemCommand {
    /// What the command comes down to.
    pub fn plan(self) -> (r: SystemPlan)
        ensures
            r == match self {
                SystemCommand::Info { json } => SystemPlan::Show { compact: json },
                SystemCommand::Commit => SystemPlan::Commit,
                SystemCommand::Reboot { spare } => SystemPlan::Reboot(RebootSystem { spare }),
            },
    {
        match self {
            SystemCommand::Info { json } => SystemPlan::Show { compact: json },
            SystemCommand::Commit => SystemPlan::Commit,
            SystemCommand::Reboot { spare } => SystemPlan::Reboot(RebootSystem { spare }),
        }
    }
}

/// Why a boot group cannot be marked.
#[derive(Debug, Clone, Copy, PartialEq, Eq, Structural)]
pub enum MarkError {
    /// Unable to find the boot group.
    UnknownGroup,
    /// There is no active boot group.
    NoActiveGroup,
}

/// A mark on a boot group.
#[derive(Debug, Clone, Copy, PartialEq, Eq, Structural)]
pub enum Mark {
    Good { group: usize },
    Bad { group: usize },
}

impl BootCommand {
    /// The mark that the command asks for. A group is marked as good even if none is named:
    /// then it is the active one.
    pub open spec fn as_mark(self, groups: BootGroups, active: Option<usize>) -> Result<
        Mark,
        MarkError,
    > {
        match self {
            BootCommand::MarkGood { group: Some(name) } => match group_named(
                groups.groups@,
                name@,
                0,
            ) {
                Some(group) => Ok(Mark::Good { group }),
                None => Err(MarkError::UnknownGroup),
            },
            BootCommand::MarkGood { group: None } => match active {
                Some(group) => Ok(Mark::Good { group }),
                None => Err(MarkError::NoActiveGroup),
            },
            BootCommand::MarkBad { group } => match group_named(groups.groups@, group@, 0) {
                Some(group) => Ok(Mark::Bad { group }),
                None => Err(MarkError::UnknownGroup),
            },
        }
    }

    /// The mark that the command asks for.
    pub fn mark(&self, groups: &BootGroups, active: Option<usize>) -> (r: Result<Mark, MarkError>)
        ensures
            r == self.as_mark(*groups, active),
    {
        match self {
            BootCommand::MarkGood { group: Some(name) } => match groups.find_by_name(
                name.as_str(),
            ) {
                Some(group) => Ok(Mark::Good { group }),
                None => Err(MarkError::UnknownGroup),
            },
            BootCommand::MarkGood { group: None } => match active {
                Some(group) => Ok(Mark::Good { group }),
                None => Err(MarkError::NoActiveGroup),
            },
            BootCommand::MarkBad { group } => match groups.find_by_name(group.as_str()) {
                Some(group) => Ok(Mark::Bad { group }),
                None => Err(MarkError::UnknownGroup),
            },
        }
    }
}

/// A mark is the one that the command asks for, on the group that it names, or else on the
/// active one, which can only be marked as good. It is refused only where there is no such
/// group.
pub proof fn law_named_group_is_marked(
    command: BootCommand,
    groups: BootGroups,
    active: Option<usize>,
)
    requires
        groups.groups@.len() <= usize::MAX,
    ensures
        ({
            let all = groups.groups@;
            let name = match command {
                BootCommand::MarkGood { group: Some(name) } => Some(name@),
                BootCommand::MarkGood { group: None } => None,
                BootCommand::MarkBad { group } => Some(group@),
            };
            match command.as_mark(groups, active) {
                Ok(mark) => {
                    let group = match mark {
                        Mark::Good { group } => group,
                        Mark::Bad { group } => group,
                    };
                    &&& mark is Good <==> command is MarkGood
                    &&& name is None ==> active == Some(group)
                    &&& name is Some ==> group < all.len() && all[group as int].name@ == name->0
                },
                Err(MarkError::UnknownGroup) => name is Some && forall|k: int|
                    0 <= k < all.len() ==> (#[trigger] all[k]).name@ != name->0,
                Err(MarkError::NoActiveGroup) => name is None && active is None,
            }
        }),
{
    match command {
        BootCommand::MarkGood { group: Some(name) } => {
            law_group_is_found_by_its_name(groups.groups@, name@);
        },
        BootCommand::MarkBad { group } => {
            law_group_is_found_by_its_name(groups.groups@, group@);
        },
        _ => {},
    }
}

/// The exit code of a check of the components: it tells components that do not fit together
/// from a check that could not be made.
pub fn components_exit_code(consistent: Option<bool>) -> (r: u8)
    ensures
        r == match consistent {
            Some(true) => 0u8,
            Some(false) => 1u8,
            None => 2u8,
        },
{
    match consistent {
        Some(consistent) => if consistent {
            0
        } else {
            1
        },
        None => 2,
    }
}

} // verus!
