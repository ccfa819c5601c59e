//! Flags and small decisions.

use vstd::prelude::*;
use crate::path::{join, path_join};

verus! {

/// The flag that asks for a reboot into the spare group on the next boot.
pub fn deferred_spare_reboot_flag() -> (r: &'static str)
    ensures
        r@ == "/run/rugix/mounts/data/.rugix/deferred-reboot-spare"@,
{
    "/run/rugix/mounts/data/.rugix/deferred-reboot-spare"
}

/// Indicates whether the process is the init process.
pub fn is_init_process(process: u32) -> (r: bool)
    ensures
        r == (process == 1),
{
    process == 1
}

/// How the system is rebooted.
#[derive(Debug, Clone, Copy, PartialEq, Eq, Structural)]
pub enum RebootMethod {
    /// Synchronize the filesystems and ask the kernel.
    Kernel,
    /// Run `reboot`.
    Command,
}

/// How the system is rebooted: the init process must ask the kernel itself.
pub fn reboot_method(process: u32) -> (r: RebootMethod)
    ensures
        r == if process == 1 {
            RebootMethod::Kernel
        } else {
            RebootMethod::Command
        },
{
    if is_init_process(process) {
        RebootMethod::Kernel
    } else {
        RebootMethod::Command
    }
}

/// Whether a flag is set: whether its file is there.
pub fn is_flag_set(path: &str, probe: impl FnOnce(&str) -> bool) -> (r: bool)
    requires
        call_requires(probe, (path,)),
    ensures
        call_ensures(probe, (path,), r),
{
    probe(path)
}

/// Sets a flag: its file is written, and holds nothing.
pub fn set_flag<E>(path: &str, write: impl FnOnce(&str, &[u8]) -> Result<(), E>) -> (r: Result<
    (),
    E,
>)
    requires
        forall|data: &[u8]| data@.len() == 0 ==> #[trigger] call_requires(write, (path, data)),
    ensures
        exists|data: &[u8]|
            data@.len() == 0 && #[trigger] call_ensures(write, (path, data), r),
{
    let nothing: Vec<u8> = Vec::new();
    let data: &[u8] = nothing.as_slice();
    let r = write(path, data);
    assert(data@.len() == 0 && call_ensures(write, (path, data), r));
    r
}

/// What came of removing a flag.
#[derive(Debug, Clone, Copy, PartialEq, Eq, Structural)]
pub enum FlagRemoval {
    Removed,
    NotFound,
    Failed,
}

/// What to do after a flag was removed.
#[derive(Debug, Clone, Copy, PartialEq, Eq, Structural)]
pub enum AfterRemoval {
    /// Synchronize the directory of the flag.
    SyncParent,
    /// Nothing: there was no flag.
    Nothing,
    /// Report the failure.
    Fail,
}

/// What follows the removal of a flag. A flag that is not set is clear already.
pub open spec fn after_removal(removal: FlagRemoval) -> AfterRemoval {
    match removal {
        FlagRemoval::Removed => AfterRemoval::SyncParent,
        FlagRemoval::NotFound => AfterRemoval::Nothing,
        FlagRemoval::Failed => AfterRemoval::Fail,
    }
}

/// Decides what follows the removal of a flag.
pub fn clear_flag(removal: FlagRemoval) -> (r: AfterRemoval)
    ensures
        r == after_removal(removal),
{
    match removal {
        FlagRemoval::Removed => AfterRemoval::SyncParent,
        FlagRemoval::NotFound => AfterRemoval::Nothing,
        FlagRemoval::Failed => AfterRemoval::Fail,
    }
}

/// Whether the paths of the files that are there become `after` when the file at a path is
/// removed and this comes of it.
pub open spec fn removes(
    before: Set<Seq<char>>,
    path: Seq<char>,
    removal: FlagRemoval,
    after: Set<Seq<char>>,
) -> bool {
    match removal {
        FlagRemoval::Removed => before.contains(path) && after == before.remove(path),
        FlagRemoval::NotFound => !before.contains(path) && after == before,
        FlagRemoval::Failed => after == before,
    }
}

/// Whether a probe tells which files are there.
pub open spec fn tells<P: FnOnce(&str) -> bool>(probe: P, files: Set<Seq<char>>) -> bool {
    forall|path: &str, r: bool| #[trigger]
        call_ensures(probe, (path,), r) ==> r == files.contains(path@)
}

/// A flag that was set is seen as set, and other flags are as they were. A flag is set where
/// its file is written, whatever it holds.
pub proof fn law_set_flag_is_seen<P: FnOnce(&str) -> bool>(
    files: Set<Seq<char>>,
    flag: Seq<char>,
    probe: P,
    path: &str,
    r: bool,
)
    requires
        tells(probe, files.insert(flag)),
        call_ensures(probe, (path,), r),
    ensures
        path@ == flag ==> r,
        path@ != flag ==> r == files.contains(path@),
{
}

/// A flag that was cleared is not seen as set, also where it was not set before, and other
/// flags are as they were.
pub proof fn law_cleared_flag_is_not_seen<P: FnOnce(&str) -> bool>(
    before: Set<Seq<char>>,
    flag: Seq<char>,
    removal: FlagRemoval,
    after: Set<Seq<char>>,
    probe: P,
    path: &str,
    r: bool,
)
    requires
        removes(before, flag, removal, after),
        !(after_removal(removal) is Fail),
        tells(probe, after),
        call_ensures(probe, (path,), r),
    ensures
        path@ == flag ==> !r,
        path@ != flag ==> r == before.contains(path@),
{
}

/// A flag that was removed is gone for good, which takes that its directory is synchronized,
/// and a removal that failed is reported. Nothing follows only where there was no flag.
pub proof fn law_removal_of_a_flag_lasts(removal: FlagRemoval)
    ensures
        after_removal(removal) is SyncParent <==> removal is Removed,
        after_removal(removal) is Fail <==> removal is Failed,
        after_removal(removal) is Nothing <==> removal is NotFound,
{
}

/// Whether a state flag counts as cleared: it was removed or was not there, and it is not
/// there now.
pub fn state_flag_cleared(removal: FlagRemoval, present: bool) -> (r: bool)
    ensures
        r == (!(removal is Failed) && !present),
{
    match removal {
        FlagRemoval::Failed => false,
        _ => !present,
    }
}

/// The path of a state flag.
pub fn state_flag_path(name: &str) -> (r: String)
    ensures
        r@ == path_join("/run/rugix/state/.rugix"@, name@),
{
    join("/run/rugix/state/.rugix", name)
}

/// The group that a deferred reboot leads to, as it is recorded.
#[derive(Debug)]
pub struct DeferredRebootTarget {
    pub version: u32,
    pub boot_group: String,
}

/// Version of the record of a deferred reboot.
pub const DEFERRED_TARGET_VERSION: u32 = 1;

/// Why a deferred reboot cannot be read.
#[derive(Debug)]
pub enum DeferredError<E> {
    /// Unable to decode deferred reboot target.
    Undecodable(E),
    /// Unsupported deferred reboot target version.
    UnsupportedVersion { version: u32 },
}

/// The group that a record names, or why it names none.
pub open spec fn recorded_group(target: DeferredRebootTarget) -> Result<Seq<char>, u32> {
    if target.version != DEFERRED_TARGET_VERSION {
        Err(target.version)
    } else {
        Ok(target.boot_group@)
    }
}

/// A record names its group where it has the known version, and no group where it has any
/// other one.
pub proof fn law_unknown_records_name_no_group(target: DeferredRebootTarget)
    ensures
        match recorded_group(target) {
            Ok(group) => target.version == 1 && group == target.boot_group@,
            Err(version) => target.version != 1 && version == target.version,
        },
{
}

/// The record of a deferred reboot into a group: the group is the one that is read from it.
pub fn set_deferred_reboot_target(boot_group: &str) -> (r: DeferredRebootTarget)
    ensures
        r.version == DEFERRED_TARGET_VERSION,
        r.boot_group@ == boot_group@,
        recorded_group(r) == Ok::<Seq<char>, u32>(boot_group@),
{
    DeferredRebootTarget { version: DEFERRED_TARGET_VERSION, boot_group: boot_group.to_owned() }
}

/// Reads the recorded target from what was written. Nothing is denoted by an empty marker,
/// which is not decoded.
pub fn read_deferred_reboot_target<E, F: FnOnce(&[u8]) -> Result<DeferredRebootTarget, E>>(
    data: &[u8],
    decode: F,
) -> (r: Result<Option<String>, DeferredError<E>>)
    requires
        data@.len() > 0 ==> call_requires(decode, (data,)),
    ensures
        r matches Ok(None) <==> data@.len() == 0,
        match r {
            Ok(None) => true,
            Ok(Some(group)) => exists|target: DeferredRebootTarget| #[trigger]
                call_ensures(decode, (data,), Ok::<DeferredRebootTarget, E>(target))
                    && recorded_group(target) == Ok::<Seq<char>, u32>(group@),
            Err(DeferredError::Undecodable(e)) => call_ensures(
                decode,
                (data,),
                Err::<DeferredRebootTarget, E>(e),
            ),
            Err(DeferredError::UnsupportedVersion { version }) => exists|
                target: DeferredRebootTarget,
            | #[trigger]
                call_ensures(decode, (data,), Ok::<DeferredRebootTarget, E>(target))
                    && recorded_group(target) == Err::<Seq<char>, u32>(version),
        },
{
    if data.len() == 0 {
        return Ok(None);
    }
    match decode(data) {
        Ok(target) => {
            if target.version != DEFERRED_TARGET_VERSION {
                return Err(DeferredError::UnsupportedVersion { version: target.version });
            }
            Ok(Some(target.boot_group))
        },
        Err(e) => Err(DeferredError::Undecodable(e)),
    }
}

} // verus!
