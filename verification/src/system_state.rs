//! Snapshots of the system: the state of its slots, of its boot groups and of the state
//! management.

use vstd::prelude::*;
use crate::digest::{hex_text, HashDigest};
use crate::operations::install::system::SlotState;
use crate::system::slots::Slot;
use crate::system::System;
use crate::text::{clone_opt, opt_view, views};

verus! {

/// The state management works.
#[derive(Debug)]
pub struct StateInfoActiveOutput {
    pub data_partition: Option<String>,
}

/// The state management does not work as configured.
#[derive(Debug)]
pub struct StateInfoErrorOutput {
    pub message: Option<String>,
    pub ephemeral: Option<bool>,
}

/// Status of the state management.
#[derive(Debug)]
pub enum StateInfoOutput {
    Disabled,
    Active(StateInfoActiveOutput),
    Error(StateInfoErrorOutput),
}

/// What is said where the data partition could not be mounted.
pub open spec fn data_mount_error_text() -> Seq<char> {
    "The data partition failed to mount. State is temporarily stored in memory and will not persist."@
}

/// What is said where the overlay could not be set up.
pub open spec fn overlay_error_text() -> Seq<char> {
    "The configured root overlay failed. The in-memory fallback is active and overlay changes will not persist."@
}

/// Whether a status says that state is lost, and why.
pub open spec fn is_fallback(status: StateInfoOutput, message: Seq<char>) -> bool {
    status matches StateInfoOutput::Error(error) && opt_view(error.message) == Some(message)
        && error.ephemeral == Some(true)
}

/// Builds an error status.
fn state_error(message: &str) -> (r: StateInfoOutput)
    ensures
        is_fallback(r, message@),
{
    StateInfoOutput::Error(
        StateInfoErrorOutput { message: Some(message.to_owned()), ephemeral: Some(true) },
    )
}

/// The status of the state management. A data partition that is not mounted counts for more
/// than a failed overlay.
pub fn state_status(
    state_exists: bool,
    overlay_failed: bool,
    data_mount_failed: bool,
    data_device: Option<String>,
) -> (r: StateInfoOutput)
    ensures
        if !state_exists {
            r is Disabled
        } else if data_mount_failed {
            is_fallback(r, data_mount_error_text())
        } else if overlay_failed {
            is_fallback(r, overlay_error_text())
        } else {
            r matches StateInfoOutput::Active(active) && opt_view(active.data_partition)
                == opt_view(data_device)
        },
{
    if !state_exists {
        StateInfoOutput::Disabled
    } else if data_mount_failed {
        state_error(
            "The data partition failed to mount. State is temporarily stored in memory and will not persist.",
        )
    } else if overlay_failed {
        state_error(
            "The configured root overlay failed. The in-memory fallback is active and overlay changes will not persist.",
        )
    } else {
        StateInfoOutput::Active(StateInfoActiveOutput { data_partition: data_device })
    }
}

/// What is stored of a slot, and when it was stored.
#[derive(Debug)]
pub struct StoredSlotState {
    pub state: SlotState,
    pub updated_at: Option<String>,
}

/// What is shown of a slot.
#[derive(Debug)]
pub struct SlotInfoOutput {
    pub active: Option<bool>,
    /// Names of the algorithms and texts of the digests.
    pub hashes: Option<Vec<(String, String)>>,
    pub size: Option<u64>,
    pub updated_at: Option<String>,
}

/// Whether a name and a text are those of a digest.
pub open spec fn shows_digest(shown: (String, String), digest: HashDigest) -> bool {
    &&& shown.0@ == digest.algorithm.name_text()
    &&& shown.1@ == digest.algorithm.name_text() + "_"@ + hex_text(digest.raw@)
}

/// Whether what is shown of a slot is what is known of it.
pub open spec fn shows_slot(
    shown: (String, SlotInfoOutput),
    slot: Slot,
    stored: Option<StoredSlotState>,
) -> bool {
    &&& shown.0@ == slot.name@
    &&& shown.1.active == Some(slot.active)
    &&& match stored {
        Some(stored) => {
            &&& shown.1.hashes matches Some(hashes)
            &&& hashes@.len() == stored.state.hashes@.len()
            &&& forall|i: int|
                0 <= i < hashes@.len() ==> shows_digest(
                    #[trigger] hashes@[i],
                    stored.state.hashes@[i],
                )
            &&& shown.1.size == stored.state.size
            &&& opt_view(shown.1.updated_at) == opt_view(stored.updated_at)
        },
        None => shown.1.hashes is None && shown.1.size is None && shown.1.updated_at is None,
    }
}

fn show_digests(hashes: &Vec<HashDigest>) -> (r: Vec<(String, String)>)
    ensures
        r@.len() == hashes@.len(),
        forall|i: int| 0 <= i < r@.len() ==> shows_digest(#[trigger] r@[i], hashes@[i]),
{
    let mut r: Vec<(String, String)> = Vec::new();
    let mut i: usize = 0;
    while i < hashes.len()
        invariant
            i <= hashes@.len(),
            r@.len() == i,
            forall|k: int| 0 <= k < i ==> shows_digest(#[trigger] r@[k], hashes@[k]),
        decreases hashes@.len() - i,
    {
        r.push((hashes[i].algorithm.name().to_owned(), hashes[i].text()));
        i = i + 1;
    }
    r
}

fn show_slot(slot: &Slot, stored: &Option<StoredSlotState>) -> (r: (String, SlotInfoOutput))
    ensures
        shows_slot(r, *slot, *stored),
{
    let name: String = slot.name.as_str().to_owned();
    let info = match stored {
        Some(stored) => SlotInfoOutput {
            active: Some(slot.active),
            hashes: Some(show_digests(&stored.state.hashes)),
            size: stored.state.size,
            updated_at: clone_opt(&stored.updated_at),
        },
        None => SlotInfoOutput {
            active: Some(slot.active),
            hashes: None,
            size: None,
            updated_at: None,
        },
    };
    (name, info)
}

/// What the boot flow says.
#[derive(Debug)]
pub struct FlowFacts {
    pub name: String,
    /// The group that is booted by default.
    pub default_group: usize,
}

/// What is shown of the boot groups.
#[derive(Debug)]
pub struct BootInfoOutput {
    pub boot_flow: String,
    pub active_group: Option<String>,
    pub default_group: Option<String>,
    pub groups: Vec<String>,
}

/// What is shown of the system.
#[derive(Debug)]
pub struct SystemInfoOutput {
    pub slots: Vec<(String, SlotInfoOutput)>,
    pub boot: Option<BootInfoOutput>,
    pub state: StateInfoOutput,
}

/// The name of a group.
pub open spec fn group_name(system: System, group: int) -> Seq<char> {
    system.boot_entries.groups@[group].name@
}

/// Whether what is shown of the boot groups is what is known of them.
pub open spec fn shows_boot(shown: BootInfoOutput, system: System, flow: FlowFacts) -> bool {
    &&& shown.boot_flow@ == flow.name@
    &&& opt_view(shown.active_group) == match system.active_boot_entry {
        Some(group) => Some(group_name(system, group as int)),
        None => None,
    }
    &&& opt_view(shown.default_group) == Some(group_name(system, flow.default_group as int))
    &&& views(shown.groups@) == Seq::new(
        system.boot_entries.groups@.len(),
        |i: int| group_name(system, i),
    )
}

fn show_boot(system: &System, flow: FlowFacts) -> (r: BootInfoOutput)
    requires
        system.wf(),
        flow.default_group < system.boot_entries.groups@.len(),
    ensures
        shows_boot(r, *system, flow),
{
    let mut groups: Vec<String> = Vec::new();
    let mut i: usize = 0;
    while i < system.boot_entries.groups.len()
        invariant
            i <= system.boot_entries.groups@.len(),
            groups@.len() == i,
            forall|k: int| 0 <= k < i ==> (#[trigger] groups@[k])@ == group_name(*system, k),
        decreases system.boot_entries.groups@.len() - i,
    {
        groups.push(system.boot_entries.groups[i].name.as_str().to_owned());
        i = i + 1;
    }
    assert(views(groups@) =~= Seq::new(
        system.boot_entries.groups@.len(),
        |i: int| group_name(*system, i),
    ));
    let active_group = match system.active_boot_entry {
        Some(group) => Some(system.boot_entries.groups[group].name.as_str().to_owned()),
        None => None,
    };
    let default_name: String = system.boot_entries.groups[flow.default_group].name.as_str().to_owned();
    BootInfoOutput {
        boot_flow: flow.name,
        active_group,
        default_group: Some(default_name),
        groups,
    }
}

/// Builds the snapshot: all slots and all groups in their order, and boot information only
/// where there is a boot flow. Slots of which nothing could be read are shown without their
/// data.
pub fn state_from_system(
    system: &System,
    stored: &Vec<Option<StoredSlotState>>,
    flow: Option<FlowFacts>,
    state: StateInfoOutput,
) -> (r: SystemInfoOutput)
    requires
        system.wf(),
        stored@.len() == system.slots.slots@.len(),
        flow matches Some(flow) ==> flow.default_group < system.boot_entries.groups@.len(),
    ensures
        r.slots@.len() == system.slots.slots@.len(),
        forall|i: int|
            0 <= i < r.slots@.len() ==> shows_slot(
                #[trigger] r.slots@[i],
                system.slots.slots@[i],
                stored@[i],
            ),
        match flow {
            Some(flow) => r.boot matches Some(boot) && shows_boot(boot, *system, flow),
            None => r.boot is None,
        },
        r.state == state,
{
    let mut slots: Vec<(String, SlotInfoOutput)> = Vec::new();
    let mut i: usize = 0;
    while i < system.slots.slots.len()
        invariant
            i <= system.slots.slots@.len(),
            stored@.len() == system.slots.slots@.len(),
            slots@.len() == i,
            forall|k: int|
                0 <= k < i ==> shows_slot(
                    #[trigger] slots@[k],
                    system.slots.slots@[k],
                    stored@[k],
                ),
        decreases system.slots.slots@.len() - i,
    {
        slots.push(show_slot(&system.slots.slots[i], &stored[i]));
        i = i + 1;
    }
    let boot = match flow {
        Some(flow) => Some(show_boot(system, flow)),
        None => None,
    };
    SystemInfoOutput { slots, boot, state }
}

} // verus!
