//! The system: its slots, its boot groups and the group that it runs from.

use vstd::prelude::*;
use crate::system::boot_groups::{
    group_named, law_group_is_found_by_its_name, other_group, BootGroup, BootGroups,
};
use crate::system::slots::{Slot, SlotKind, SystemSlots};
use crate::text::{has_prefix, opt_view, same, split_whitespace, strip_prefix, views, words};

pub mod boot_groups;
pub mod config;
pub mod custom;
pub mod data_partition;
pub mod rauc;
pub mod slots;
pub mod systemd_boot;

verus! {

/// The group that the parameters from `from` on name: the first one that is about it
/// decides.
pub open spec fn params_group(params: Seq<Seq<char>>, groups: Seq<BootGroup>, from: nat) -> Option<
    usize,
>
    decreases params.len() - from,
{
    if from >= params.len() {
        None
    } else if has_prefix(params[from as int], "rugix.boot_group="@) {
        group_named(groups, params[from as int].skip("rugix.boot_group="@.len() as int), 0)
    } else {
        params_group(params, groups, from + 1)
    }
}

/// The group that `rugix.boot_group=<name>` on the kernel cmdline names.
pub open spec fn cmdline_group(cmdline: Seq<char>, groups: Seq<BootGroup>) -> Option<usize> {
    params_group(words(cmdline), groups, 0)
}

/// Whether a parameter is about the boot group.
pub open spec fn is_about_group(param: Seq<char>) -> bool {
    has_prefix(param, "rugix.boot_group="@)
}

proof fn lemma_first_decides(params: Seq<Seq<char>>, groups: Seq<BootGroup>, i: int, from: nat)
    requires
        from <= i <= params.len(),
        i < params.len() ==> is_about_group(params[i]),
        forall|k: int| from <= k < i ==> !is_about_group(#[trigger] params[k]),
    ensures
        params_group(params, groups, from) == params_group(params, groups, i as nat),
    decreases i - from,
{
    if from < i {
        assert(!is_about_group(params[from as int]));
        lemma_first_decides(params, groups, i, from + 1);
    }
}

/// The group that the kernel cmdline names is the one of the name behind the first parameter
/// that is about it. There is none without such a parameter, or without a group of that name.
pub proof fn law_first_group_parameter_decides(cmdline: Seq<char>, groups: Seq<BootGroup>, i: int)
    requires
        groups.len() <= usize::MAX,
        0 <= i <= words(cmdline).len(),
        i < words(cmdline).len() ==> is_about_group(words(cmdline)[i]),
        forall|k: int| 0 <= k < i ==> !is_about_group(#[trigger] words(cmdline)[k]),
    ensures
        ({
            let name = words(cmdline)[i].skip("rugix.boot_group="@.len() as int);
            match cmdline_group(cmdline, groups) {
                Some(group) => i < words(cmdline).len() && group < groups.len()
                    && groups[group as int].name@ == name && forall|k: int|
                    0 <= k < group ==> (#[trigger] groups[k]).name@ != name,
                None => i == words(cmdline).len() || forall|k: int|
                    0 <= k < groups.len() ==> (#[trigger] groups[k]).name@ != name,
            }
        }),
{
    lemma_first_decides(words(cmdline), groups, i, 0);
    if i < words(cmdline).len() {
        law_group_is_found_by_its_name(
            groups,
            words(cmdline)[i].skip("rugix.boot_group="@.len() as int),
        );
    }
}

/// Resolves `rugix.boot_group=<name>` on the kernel cmdline to a boot group.
pub fn get_active_from_cmdline(cmdline: &str, groups: &BootGroups) -> (r: Option<usize>)
    ensures
        r == cmdline_group(cmdline@, groups.groups@),
        r matches Some(group) ==> group < groups.groups@.len(),
{
    let params = split_whitespace(cmdline);
    let ghost texts = words(cmdline@);
    let mut i: usize = 0;
    while i < params.len()
        invariant
            i <= params@.len(),
            views(params@) == texts,
            texts == words(cmdline@),
            params_group(texts, groups.groups@, 0) == params_group(texts, groups.groups@, i as nat),
        decreases params@.len() - i,
    {
        assert(params@[i as int]@ == texts[i as int]);
        if let Some(name) = strip_prefix(params[i].as_str(), "rugix.boot_group=") {
            return groups.find_by_name(name.as_str());
        }
        i = i + 1;
    }
    None
}

/// Whether a slot is the given block device.
pub open spec fn is_device(slot: Slot, device: Option<Seq<char>>) -> bool {
    slot.kind matches SlotKind::Block { device: Some(found) } && device == Some(found@)
}

/// Whether a group has a slot that is the given block device.
pub open spec fn has_device(group: BootGroup, slots: Seq<Slot>, device: Option<Seq<char>>) -> bool {
    exists|i: int|
        0 <= i < group.slots@.len() && is_device(
            slots[(#[trigger] group.slots@[i]).1 as int],
            device,
        )
}

/// The first group from `from` on that has a slot that is the given block device.
pub open spec fn device_group(
    groups: Seq<BootGroup>,
    slots: Seq<Slot>,
    device: Option<Seq<char>>,
    from: nat,
) -> Option<usize>
    decreases groups.len() - from,
{
    if from >= groups.len() {
        None
    } else if has_device(groups[from as int], slots, device) {
        Some(from as usize)
    } else {
        device_group(groups, slots, device, from + 1)
    }
}

proof fn lemma_device_group(
    groups: Seq<BootGroup>,
    slots: Seq<Slot>,
    device: Option<Seq<char>>,
    from: nat,
)
    requires
        groups.len() <= usize::MAX,
    ensures
        match device_group(groups, slots, device, from) {
            Some(i) => from <= i < groups.len() && has_device(groups[i as int], slots, device)
                && forall|k: int|
                from <= k < i ==> !has_device(#[trigger] groups[k], slots, device),
            None => forall|k: int|
                from <= k < groups.len() ==> !has_device(#[trigger] groups[k], slots, device),
        },
    decreases groups.len() - from,
{
    if from < groups.len() && !has_device(groups[from as int], slots, device) {
        lemma_device_group(groups, slots, device, from + 1);
    }
}

/// The group of the system device is the first one that has a slot on it. There is none where
/// no group has such a slot, or where the device is not known.
pub proof fn law_system_device_belongs_to_its_group(
    groups: Seq<BootGroup>,
    slots: Seq<Slot>,
    device: Option<Seq<char>>,
)
    requires
        groups.len() <= usize::MAX,
    ensures
        device_group(groups, slots, device, 0) is Some ==> device is Some,
        match device_group(groups, slots, device, 0) {
            Some(i) => i < groups.len() && has_device(groups[i as int], slots, device) && forall|
                k: int,
            |
                0 <= k < i ==> !has_device(#[trigger] groups[k], slots, device),
            None => forall|k: int|
                0 <= k < groups.len() ==> !has_device(#[trigger] groups[k], slots, device),
        },
{
    lemma_device_group(groups, slots, device, 0);
}

fn slot_is_device(slot: &Slot, device: &Option<String>) -> (r: bool)
    ensures
        r == is_device(*slot, opt_view(*device)),
{
    match (&slot.kind, device) {
        (SlotKind::Block { device: Some(found) }, Some(device)) => same(
            found.as_str(),
            device.as_str(),
        ),
        _ => false,
    }
}

/// Whether every group has slots that exist.
pub open spec fn groups_wf(groups: Seq<BootGroup>, slots: nat) -> bool {
    forall|i: int| 0 <= i < groups.len() ==> (#[trigger] groups[i]).wf(slots)
}

/// Finds the group that the system device belongs to. Slots that are absent have no device,
/// so they are never the one that was booted from.
pub fn match_system_device(
    groups: &BootGroups,
    slots: &SystemSlots,
    system_device: &Option<String>,
) -> (r: Option<usize>)
    requires
        groups_wf(groups.groups@, slots.slots@.len()),
    ensures
        r == device_group(
            groups.groups@,
            slots.slots@,
            opt_view(*system_device),
            0,
        ),
        r matches Some(group) ==> group < groups.groups@.len(),
{
    let ghost device = opt_view(*system_device);
    let mut i: usize = 0;
    while i < groups.groups.len()
        invariant
            i <= groups.groups@.len(),
            device == opt_view(*system_device),
            groups_wf(groups.groups@, slots.slots@.len()),
            device_group(groups.groups@, slots.slots@, device, 0) == device_group(
                groups.groups@,
                slots.slots@,
                device,
                i as nat,
            ),
        decreases groups.groups@.len() - i,
    {
        let group = &groups.groups[i];
        assert(groups.groups@[i as int].wf(slots.slots@.len()));
        let mut j: usize = 0;
        while j < group.slots.len()
            invariant
                i < groups.groups@.len(),
                group == groups.groups@[i as int],
                group.wf(slots.slots@.len()),
                j <= group.slots@.len(),
                device == opt_view(*system_device),
                device_group(groups.groups@, slots.slots@, device, 0) == device_group(
                    groups.groups@,
                    slots.slots@,
                    device,
                    i as nat,
                ),
                forall|k: int|
                    0 <= k < j ==> !is_device(
                        slots.slots@[(#[trigger] group.slots@[k]).1 as int],
                        device,
                    ),
            decreases group.slots@.len() - j,
        {
            let slot: usize = group.slots[j].1;
            assert(group.slots@[j as int].1 < slots.slots@.len());
            if slot_is_device(&slots.slots[slot], system_device) {
                assert(has_device(*group, slots.slots@, device));
                return Some(i);
            }
            j = j + 1;
        }
        assert(!has_device(*group, slots.slots@, device));
        i = i + 1;
    }
    None
}

/// The system.
#[derive(Debug)]
pub struct System {
    pub slots: SystemSlots,
    pub boot_entries: BootGroups,
    /// The group that the system runs from, where it is known.
    pub active_boot_entry: Option<usize>,
}

/// Whether a group is the same but for whether it is active.
pub open spec fn same_group(a: BootGroup, b: BootGroup) -> bool {
    a.name == b.name && a.slots == b.slots
}

/// Whether a slot is the same but for whether it is active.
pub open spec fn same_slot(a: Slot, b: Slot) -> bool {
    a.name == b.name && a.kind == b.kind && a.immutable == b.immutable
}

/// Whether a group has a slot.
pub open spec fn group_has_slot(group: BootGroup, slot: int) -> bool {
    exists|i: int| 0 <= i < group.slots@.len() && (#[trigger] group.slots@[i]).1 == slot
}

/// The group that the kernel cmdline names, if there is a cmdline and it names one.
pub open spec fn named_group(cmdline: Option<&str>, groups: BootGroups) -> Option<usize> {
    match cmdline {
        Some(cmdline) => cmdline_group(cmdline@, groups.groups@),
        None => None,
    }
}

impl System {
    /// Nothing is active but the active group and its slots.
    pub open spec fn wf(self) -> bool {
        &&& groups_wf(self.boot_entries.groups@, self.slots.slots@.len())
        &&& self.active_boot_entry matches Some(group) ==> group < self.boot_entries.groups@.len()
        &&& forall|i: int|
            0 <= i < self.boot_entries.groups@.len() ==> (
            #[trigger] self.boot_entries.groups@[i]).active == (self.active_boot_entry is Some
                && self.active_boot_entry->0 == i)
        &&& forall|i: int|
            0 <= i < self.slots.slots@.len() ==> (#[trigger] self.slots.slots@[i]).active == (
            self.active_boot_entry is Some && group_has_slot(
                self.boot_entries.groups@[self.active_boot_entry->0 as int],
                i,
            ))
    }

    /// Finds out which group the system runs from, and marks it and its slots as active.
    ///
    /// The kernel cmdline comes first, then the boot flow is asked, and at last the block
    /// devices are matched against the system device.
    pub fn initialize<E>(
        slots: SystemSlots,
        boot_entries: BootGroups,
        cmdline: Option<&str>,
        ask_flow: impl FnOnce() -> Result<Option<usize>, E>,
        system_device: &Option<String>,
    ) -> (r: Result<System, E>)
        requires
            groups_wf(boot_entries.groups@, slots.slots@.len()),
            forall|i: int|
                0 <= i < boot_entries.groups@.len() ==> !(
                #[trigger] boot_entries.groups@[i]).active,
            forall|i: int| 0 <= i < slots.slots@.len() ==> !(#[trigger] slots.slots@[i]).active,
            named_group(cmdline, boot_entries) is None ==> call_requires(ask_flow, ()),
            forall|group: usize|
                #[trigger] call_ensures(ask_flow, (), Ok::<Option<usize>, E>(Some(group)))
                    ==> group < boot_entries.groups@.len(),
        ensures
            ({
                let named = named_group(cmdline, boot_entries);
                match r {
                    Ok(system) => {
                        &&& system.wf()
                        &&& system.boot_entries.groups@.len() == boot_entries.groups@.len()
                        &&& forall|i: int|
                            0 <= i < boot_entries.groups@.len() ==> same_group(
                                #[trigger] system.boot_entries.groups@[i],
                                boot_entries.groups@[i],
                            )
                        &&& system.slots.slots@.len() == slots.slots@.len()
                        &&& forall|i: int|
                            0 <= i < slots.slots@.len() ==> same_slot(
                                #[trigger] system.slots.slots@[i],
                                slots.slots@[i],
                            )
                        &&& if named is Some {
                            system.active_boot_entry == named
                        } else {
                            ||| system.active_boot_entry is Some && call_ensures(
                                ask_flow,
                                (),
                                Ok::<Option<usize>, E>(system.active_boot_entry),
                            )
                            ||| call_ensures(ask_flow, (), Ok::<Option<usize>, E>(None))
                                && system.active_boot_entry == device_group(
                                boot_entries.groups@,
                                slots.slots@,
                                opt_view(*system_device),
                                0,
                            )
                        }
                    },
                    Err(e) => named is None && call_ensures(
                        ask_flow,
                        (),
                        Err::<Option<usize>, E>(e),
                    ),
                }
            }),
    {
        let mut active = match cmdline {
            Some(cmdline) => get_active_from_cmdline(cmdline, &boot_entries),
            None => None,
        };
        if active.is_none() {
            match ask_flow() {
                Ok(group) => {
                    active = group;
                },
                Err(e) => {
                    return Err(e);
                },
            }
            if active.is_none() {
                active = match_system_device(&boot_entries, &slots, system_device);
            }
        }
        let (groups, marked) = mark_active(boot_entries, slots, active);
        Ok(System { slots: marked, boot_entries: groups, active_boot_entry: active })
    }

    /// Whether the active group is not the one that is booted by default.
    pub fn needs_commit(&self, default: usize) -> (r: bool)
        ensures
            r == (self.active_boot_entry != Some(default)),
    {
        match self.active_boot_entry {
            Some(active) => active != default,
            None => true,
        }
    }

    /// First group that is not the one that is booted by default.
    pub fn spare_entry(&self, default: usize) -> (r: Option<usize>)
        ensures
            r == other_group(self.boot_entries.groups@.len(), default as nat, 0),
    {
        self.boot_entries.spare_entry(default)
    }
}

fn mark_active(groups: BootGroups, slots: SystemSlots, active: Option<usize>) -> (r: (
    BootGroups,
    SystemSlots,
))
    requires
        groups_wf(groups.groups@, slots.slots@.len()),
        active matches Some(group) ==> group < groups.groups@.len(),
        forall|i: int| 0 <= i < groups.groups@.len() ==> !(#[trigger] groups.groups@[i]).active,
        forall|i: int| 0 <= i < slots.slots@.len() ==> !(#[trigger] slots.slots@[i]).active,
    ensures
        (System { slots: r.1, boot_entries: r.0, active_boot_entry: active }).wf(),
        r.0.groups@.len() == groups.groups@.len(),
        forall|i: int|
            0 <= i < groups.groups@.len() ==> same_group(
                #[trigger] r.0.groups@[i],
                groups.groups@[i],
            ),
        r.1.slots@.len() == slots.slots@.len(),
        forall|i: int|
            0 <= i < slots.slots@.len() ==> same_slot(#[trigger] r.1.slots@[i], slots.slots@[i]),
{
    let index: usize = match active {
        Some(index) => index,
        None => return (groups, slots),
    };
    let ghost old_groups = groups.groups@;
    let ghost old_slots = slots.slots@;
    let mut marked_groups = groups;
    let mut marked_slots = slots;
    marked_groups.groups[index].active = true;
    let mut j: usize = 0;
    while j < marked_groups.groups[index].slots.len()
        invariant
            index < marked_groups.groups@.len() == old_groups.len(),
            same_group(marked_groups.groups@[index as int], old_groups[index as int]),
            old_groups[index as int].wf(old_slots.len()),
            marked_slots.slots@.len() == old_slots.len(),
            j <= old_groups[index as int].slots@.len(),
            forall|i: int|
                0 <= i < old_slots.len() ==> same_slot(
                    #[trigger] marked_slots.slots@[i],
                    old_slots[i],
                ),
            forall|i: int|
                0 <= i < old_slots.len() ==> ((#[trigger] marked_slots.slots@[i]).active <==> exists|
                    k: int,
                |
                    0 <= k < j && (#[trigger] old_groups[index as int].slots@[k]).1 == i),
        decreases old_groups[index as int].slots@.len() - j,
    {
        let slot: usize = marked_groups.groups[index].slots[j].1;
        assert(old_groups[index as int].slots@[j as int].1 < old_slots.len());
        let ghost before = marked_slots.slots@;
        marked_slots.slots[slot].active = true;
        assert forall|i: int| 0 <= i < old_slots.len() implies ((
        #[trigger] marked_slots.slots@[i]).active <==> exists|k: int|
            0 <= k < j + 1 && (#[trigger] old_groups[index as int].slots@[k]).1 == i) by {
            if i == slot {
                assert(old_groups[index as int].slots@[j as int].1 == i);
            } else {
                assert(marked_slots.slots@[i] == before[i]);
            }
        }
        j = j + 1;
    }
    proof {
        let system = System {
            slots: marked_slots,
            boot_entries: marked_groups,
            active_boot_entry: active,
        };
        assert(same_group(marked_groups.groups@[index as int], old_groups[index as int]));
        assert forall|i: int| 0 <= i < marked_slots.slots@.len() implies (
        #[trigger] system.slots.slots@[i]).active == group_has_slot(
            marked_groups.groups@[index as int],
            i,
        ) by {
            if group_has_slot(marked_groups.groups@[index as int], i) {
                let k = choose|k: int|
                    0 <= k < marked_groups.groups@[index as int].slots@.len() && (
                    #[trigger] marked_groups.groups@[index as int].slots@[k]).1 == i;
                assert(old_groups[index as int].slots@[k].1 == i);
            }
        }
        assert forall|i: int| 0 <= i < marked_groups.groups@.len() implies (
        #[trigger] system.boot_entries.groups@[i]).active == (index == i) by {
            if i != index {
                assert(system.boot_entries.groups@[i] == old_groups[i]);
            }
        }
        assert forall|i: int| 0 <= i < marked_groups.groups@.len() implies (
        #[trigger] marked_groups.groups@[i]).wf(marked_slots.slots@.len()) by {
            assert(old_groups[i].wf(old_slots.len()));
        }
    }
    (marked_groups, marked_slots)
}

} // verus!
