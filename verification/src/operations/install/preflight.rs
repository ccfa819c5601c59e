//! Checks on the payloads of a system bundle before anything is changed.

use vstd::prelude::*;
use crate::system::boot_groups::{
    aliased, has_no_alias, is_first_alias, law_alias_stands_for_its_slot, BootGroup,
};
use crate::system::slots::{
    has_no_slot, is_first_named, law_slot_is_found_by_its_name, lemma_slot_named, Slot, slot_named,
    SystemSlots,
};

verus! {

/// Where a payload of a system bundle goes.
#[derive(Debug, Clone, Copy, PartialEq, Eq, Structural)]
pub enum SystemPayloadDestination {
    /// To a slot.
    Slot(usize),
    /// To a command.
    Execute,
}

/// How a payload wants to be delivered.
#[derive(Debug)]
pub struct PayloadDelivery {
    pub slot: Option<String>,
    pub execute: bool,
    pub app_file: bool,
    pub app_archive: bool,
}

/// Why a bundle cannot be installed as a system update.
#[derive(Debug, Clone, Copy, PartialEq, Eq, Structural)]
pub enum PreflightError {
    /// Full system updates require the specification of a boot group.
    MissingBootGroup,
    /// The payload must declare exactly one delivery type.
    DeliveryTypes { payload: usize, count: usize },
    /// The payload is an app payload and cannot be installed as a system update.
    AppPayload { payload: usize },
    /// The destination slot of the payload is unknown.
    UnknownSlot { payload: usize },
    /// The destination slot of the payload is unavailable.
    UnavailableSlot { payload: usize, slot: usize },
    /// The destination slot of the payload is active.
    ActiveSlot { payload: usize, slot: usize },
    /// Multiple payloads resolve to the same destination slot.
    DuplicateSlot { payload: usize, slot: usize },
    /// The bundle does not contain any applicable payloads.
    NoPayloads,
    /// The full system update does not contain a system-slot payload.
    NoSlotPayload,
}

/// One where the condition holds.
pub open spec fn one_if(condition: bool) -> nat {
    if condition {
        1
    } else {
        0
    }
}

/// The number of delivery types that a payload declares.
pub open spec fn delivery_types(delivery: PayloadDelivery) -> nat {
    one_if(delivery.slot is Some) + one_if(delivery.execute) + one_if(delivery.app_file) + one_if(
        delivery.app_archive,
    )
}

/// The slot that a name stands for: an alias of the boot group, or else a slot of
/// that name.
pub open spec fn resolved_slot(
    slots: Seq<Slot>,
    group: Option<BootGroup>,
    name: Seq<char>,
) -> Option<usize> {
    match group {
        Some(group) => match aliased(group.slots@, name, 0) {
            Some(slot) => Some(slot),
            None => slot_named(slots, name, 0),
        },
        None => slot_named(slots, name, 0),
    }
}

/// The destination of a payload, after the earlier ones got theirs.
pub open spec fn destination(
    delivery: PayloadDelivery,
    payload: usize,
    slots: Seq<Slot>,
    group: Option<BootGroup>,
    earlier: Seq<SystemPayloadDestination>,
) -> Result<SystemPayloadDestination, PreflightError> {
    let count = delivery_types(delivery);
    if count != 1 {
        Err(PreflightError::DeliveryTypes { payload, count: count as usize })
    } else if delivery.app_file || delivery.app_archive {
        Err(PreflightError::AppPayload { payload })
    } else if delivery.slot is Some {
        match resolved_slot(slots, group, delivery.slot->0@) {
            None => Err(PreflightError::UnknownSlot { payload }),
            Some(slot) => if !slots[slot as int].available() {
                Err(PreflightError::UnavailableSlot { payload, slot })
            } else if slots[slot as int].active {
                Err(PreflightError::ActiveSlot { payload, slot })
            } else if earlier.contains(SystemPayloadDestination::Slot(slot)) {
                Err(PreflightError::DuplicateSlot { payload, slot })
            } else {
                Ok(SystemPayloadDestination::Slot(slot))
            },
        }
    } else {
        Ok(SystemPayloadDestination::Execute)
    }
}

/// The destinations of the first `n` payloads, or the first error.
pub open spec fn destinations(
    deliveries: Seq<PayloadDelivery>,
    slots: Seq<Slot>,
    group: Option<BootGroup>,
    n: nat,
) -> Result<Seq<SystemPayloadDestination>, PreflightError>
    decreases n,
{
    if n == 0 {
        Ok(Seq::empty())
    } else {
        match destinations(deliveries, slots, group, (n - 1) as nat) {
            Err(e) => Err(e),
            Ok(earlier) => match destination(
                deliveries[n - 1],
                (n - 1) as usize,
                slots,
                group,
                earlier,
            ) {
                Err(e) => Err(e),
                Ok(d) => Ok(earlier.push(d)),
            },
        }
    }
}

/// The destinations of all payloads of a bundle, or why it cannot be installed.
pub open spec fn preflight(
    is_incremental: bool,
    deliveries: Seq<PayloadDelivery>,
    slots: Seq<Slot>,
    group: Option<BootGroup>,
) -> Result<Seq<SystemPayloadDestination>, PreflightError> {
    if !is_incremental && group is None {
        Err(PreflightError::MissingBootGroup)
    } else {
        match destinations(deliveries, slots, group, deliveries.len()) {
            Err(e) => Err(e),
            Ok(all) => if all.len() == 0 {
                Err(PreflightError::NoPayloads)
            } else if !is_incremental && !exists|i: int|
                0 <= i < all.len() && (#[trigger] all[i]) is Slot {
                Err(PreflightError::NoSlotPayload)
            } else {
                Ok(all)
            },
        }
    }
}

/// Whether a slot index is one of a slot that an update may write to.
pub open spec fn is_writable_slot(slots: Seq<Slot>, slot: usize) -> bool {
    slot < slots.len() && slots[slot as int].available() && !slots[slot as int].active
}

proof fn lemma_aliased(slots: Seq<(String, usize)>, alias: Seq<char>, from: nat, n: nat)
    requires
        forall|i: int| 0 <= i < slots.len() ==> (#[trigger] slots[i]).1 < n,
    ensures
        aliased(slots, alias, from) matches Some(slot) ==> slot < n,
    decreases slots.len() - from,
{
    if from < slots.len() && slots[from as int].0@ != alias {
        lemma_aliased(slots, alias, from + 1, n);
    }
}

proof fn lemma_resolved_slot(slots: Seq<Slot>, group: Option<BootGroup>, name: Seq<char>)
    requires
        slots.len() <= usize::MAX,
        group matches Some(g) ==> g.wf(slots.len()),
    ensures
        resolved_slot(slots, group, name) matches Some(slot) ==> slot < slots.len(),
{
    lemma_slot_named(slots, name, 0);
    if let Some(g) = group {
        lemma_aliased(g.slots@, name, 0, slots.len());
    }
}

proof fn lemma_destinations(
    deliveries: Seq<PayloadDelivery>,
    slots: Seq<Slot>,
    group: Option<BootGroup>,
    n: nat,
)
    requires
        slots.len() <= usize::MAX,
        group matches Some(g) ==> g.wf(slots.len()),
    ensures
        destinations(deliveries, slots, group, n) matches Ok(all) ==> {
            &&& all.len() == n
            &&& forall|i: int|
                0 <= i < n ==> (#[trigger] all[i] matches SystemPayloadDestination::Slot(slot)
                    ==> is_writable_slot(slots, slot))
            &&& forall|i: int, j: int|
                0 <= i < j < n && (#[trigger] all[i]) is Slot ==> all[i] != #[trigger] all[j]
        },
    decreases n,
{
    if n > 0 {
        lemma_destinations(deliveries, slots, group, (n - 1) as nat);
        if let Ok(earlier) = destinations(deliveries, slots, group, (n - 1) as nat) {
            let delivery = deliveries[n - 1];
            if delivery.slot is Some {
                lemma_resolved_slot(slots, group, delivery.slot->0@);
            }
            if let Ok(all) = destinations(deliveries, slots, group, n) {
                assert forall|i: int, j: int|
                    0 <= i < j < n && (#[trigger] all[i]) is Slot implies all[i]
                    != #[trigger] all[j] by {
                    assert(all[i] == earlier[i]);
                    if j == n - 1 {
                        assert(earlier.contains(all[i]));
                    } else {
                        assert(all[j] == earlier[j]);
                    }
                }
            }
        }
    }
}

/// A bundle that passes has one destination for each payload. Every slot among
/// them is available and inactive, and no two payloads go to the same slot. A full
/// update has a boot group and writes at least one slot.
pub proof fn law_preflight_protects_the_running_system(
    is_incremental: bool,
    deliveries: Seq<PayloadDelivery>,
    slots: Seq<Slot>,
    group: Option<BootGroup>,
)
    requires
        slots.len() <= usize::MAX,
        group matches Some(g) ==> g.wf(slots.len()),
    ensures
        preflight(is_incremental, deliveries, slots, group) matches Ok(all) ==> {
            &&& all.len() == deliveries.len()
            &&& all.len() > 0
            &&& forall|i: int|
                0 <= i < all.len() ==> (#[trigger] all[i] matches SystemPayloadDestination::Slot(
                    slot,
                ) ==> is_writable_slot(slots, slot))
            &&& forall|i: int, j: int|
                0 <= i < j < all.len() && (#[trigger] all[i]) is Slot ==> all[i] != #[trigger] all[j]
            &&& !is_incremental ==> group is Some && exists|i: int|
                0 <= i < all.len() && (#[trigger] all[i]) is Slot
        },
{
    lemma_destinations(deliveries, slots, group, deliveries.len());
}

/// Whether an alias of the boot group is the given name.
pub open spec fn has_alias(group: Option<BootGroup>, name: Seq<char>) -> bool {
    group is Some && !has_no_alias(group->0.slots@, name)
}

/// Whether a name stands for a slot: as an alias of the boot group, which comes before the
/// names of the slots, or as the name of the slot.
pub open spec fn stands_for(
    slots: Seq<Slot>,
    group: Option<BootGroup>,
    name: Seq<char>,
    slot: usize,
) -> bool {
    if has_alias(group, name) {
        exists|k: int|
            #[trigger] is_first_alias(group->0.slots@, name, k) && group->0.slots@[k].1 == slot
    } else {
        is_first_named(slots, name, slot as int)
    }
}

proof fn lemma_stands_for(slots: Seq<Slot>, group: Option<BootGroup>, name: Seq<char>)
    requires
        slots.len() <= usize::MAX,
    ensures
        match resolved_slot(slots, group, name) {
            Some(slot) => stands_for(slots, group, name, slot),
            None => !has_alias(group, name) && has_no_slot(slots, name),
        },
{
    law_slot_is_found_by_its_name(slots, name);
    if let Some(g) = group {
        law_alias_stands_for_its_slot(g.slots@, name);
        if aliased(g.slots@, name, 0) is Some {
            let k = choose|k: int| #[trigger] is_first_alias(g.slots@, name, k);
            assert(g.slots@[k].0@ == name);
        }
    }
}

/// Whether a payload goes to where its delivery wants it: to a command, or to the slot that
/// it names, and it declares nothing else.
pub open spec fn is_delivered(
    slots: Seq<Slot>,
    group: Option<BootGroup>,
    delivery: PayloadDelivery,
    destination: SystemPayloadDestination,
) -> bool {
    &&& !delivery.app_file && !delivery.app_archive
    &&& match destination {
        SystemPayloadDestination::Execute => delivery.execute && delivery.slot is None,
        SystemPayloadDestination::Slot(slot) => !delivery.execute && delivery.slot is Some
            && stands_for(slots, group, delivery.slot->0@, slot),
    }
}

/// Whether a payload is the reason why a bundle is refused.
pub open spec fn is_refused(
    deliveries: Seq<PayloadDelivery>,
    slots: Seq<Slot>,
    group: Option<BootGroup>,
    error: PreflightError,
) -> bool {
    match error {
        PreflightError::DeliveryTypes { payload, count } => payload < deliveries.len() && ({
            let d = deliveries[payload as int];
            &&& count != 1
            &&& count == 0 <==> d.slot is None && !d.execute && !d.app_file && !d.app_archive
            &&& count == 4 <==> d.slot is Some && d.execute && d.app_file && d.app_archive
            &&& count == 3 <==> one_if(d.slot is None) + one_if(!d.execute) + one_if(!d.app_file)
                + one_if(!d.app_archive) == 1
        }),
        PreflightError::AppPayload { payload } => payload < deliveries.len() && (
        deliveries[payload as int].app_file || deliveries[payload as int].app_archive),
        PreflightError::UnknownSlot { payload } => payload < deliveries.len() && ({
            let d = deliveries[payload as int];
            d.slot is Some && !has_alias(group, d.slot->0@) && has_no_slot(slots, d.slot->0@)
        }),
        PreflightError::UnavailableSlot { payload, slot } => payload < deliveries.len()
            && is_delivered(
            slots,
            group,
            deliveries[payload as int],
            SystemPayloadDestination::Slot(slot),
        ) && !slots[slot as int].available(),
        PreflightError::ActiveSlot { payload, slot } => payload < deliveries.len() && is_delivered(
            slots,
            group,
            deliveries[payload as int],
            SystemPayloadDestination::Slot(slot),
        ) && slots[slot as int].active,
        PreflightError::DuplicateSlot { payload, slot } => payload < deliveries.len()
            && is_delivered(
            slots,
            group,
            deliveries[payload as int],
            SystemPayloadDestination::Slot(slot),
        ) && exists|j: int|
            0 <= j < payload && is_delivered(
                slots,
                group,
                #[trigger] deliveries[j],
                SystemPayloadDestination::Slot(slot),
            ),
        _ => false,
    }
}

proof fn lemma_delivered(
    deliveries: Seq<PayloadDelivery>,
    slots: Seq<Slot>,
    group: Option<BootGroup>,
    n: nat,
)
    requires
        slots.len() <= usize::MAX,
        n <= deliveries.len() <= usize::MAX,
    ensures
        match destinations(deliveries, slots, group, n) {
            Ok(all) => all.len() == n && forall|i: int|
                0 <= i < n ==> is_delivered(slots, group, #[trigger] deliveries[i], all[i]),
            Err(e) => is_refused(deliveries, slots, group, e),
        },
    decreases n,
{
    if n > 0 {
        lemma_delivered(deliveries, slots, group, (n - 1) as nat);
        let delivery = deliveries[n - 1];
        if delivery.slot is Some {
            lemma_stands_for(slots, group, delivery.slot->0@);
        }
        if let Ok(earlier) = destinations(deliveries, slots, group, (n - 1) as nat) {
            let d = destination(delivery, (n - 1) as usize, slots, group, earlier);
            if let Err(PreflightError::DuplicateSlot { payload, slot }) = d {
                let j = choose|j: int|
                    0 <= j < earlier.len() && earlier[j] == SystemPayloadDestination::Slot(slot);
                assert(is_delivered(slots, group, deliveries[j], earlier[j]));
            }
        }
    }
}

/// A bundle that passes has every payload go to where its delivery wants it, and one that is
/// refused has a payload that is the reason, or it lacks what an update needs.
pub proof fn law_payloads_go_where_they_belong(
    is_incremental: bool,
    deliveries: Seq<PayloadDelivery>,
    slots: Seq<Slot>,
    group: Option<BootGroup>,
)
    requires
        slots.len() <= usize::MAX,
        deliveries.len() <= usize::MAX,
    ensures
        match preflight(is_incremental, deliveries, slots, group) {
            Ok(all) => all.len() == deliveries.len() && forall|i: int|
                0 <= i < all.len() ==> is_delivered(
                    slots,
                    group,
                    #[trigger] deliveries[i],
                    all[i],
                ),
            Err(PreflightError::MissingBootGroup) => !is_incremental && group is None,
            Err(PreflightError::NoPayloads) => deliveries.len() == 0,
            Err(PreflightError::NoSlotPayload) => !is_incremental && forall|i: int|
                0 <= i < deliveries.len() ==> (#[trigger] deliveries[i]).execute,
            Err(error) => is_refused(deliveries, slots, group, error),
        },
{
    lemma_delivered(deliveries, slots, group, deliveries.len());
    if preflight(is_incremental, deliveries, slots, group) == Err::<
        Seq<SystemPayloadDestination>,
        _,
    >(PreflightError::NoSlotPayload) {
        let all = destinations(deliveries, slots, group, deliveries.len())->Ok_0;
        assert forall|i: int| 0 <= i < deliveries.len() implies (
        #[trigger] deliveries[i]).execute by {
            assert(!(all[i] is Slot));
        }
    }
}

fn contains_destination(all: &Vec<SystemPayloadDestination>, d: SystemPayloadDestination) -> (r:
    bool)
    ensures
        r == all@.contains(d),
{
    let mut i: usize = 0;
    while i < all.len()
        invariant
            i <= all@.len(),
            forall|k: int| 0 <= k < i ==> all@[k] != d,
        decreases all@.len() - i,
    {
        if all[i] == d {
            assert(all@[i as int] == d);
            return true;
        }
        i = i + 1;
    }
    false
}

fn count_if(condition: bool) -> (r: usize)
    ensures
        r == one_if(condition),
{
    if condition {
        1
    } else {
        0
    }
}

fn destination_of(
    delivery: &PayloadDelivery,
    payload: usize,
    slots: &SystemSlots,
    group: Option<&BootGroup>,
    earlier: &Vec<SystemPayloadDestination>,
) -> (r: Result<SystemPayloadDestination, PreflightError>)
    requires
        group matches Some(g) ==> g.wf(slots.slots@.len()),
    ensures
        r == destination(
            *delivery,
            payload,
            slots.slots@,
            match group {
                Some(g) => Some(*g),
                None => None,
            },
            earlier@,
        ),
{
    let count: usize = count_if(delivery.slot.is_some()) + count_if(delivery.execute) + count_if(
        delivery.app_file,
    ) + count_if(delivery.app_archive);
    if count != 1 {
        return Err(PreflightError::DeliveryTypes { payload, count });
    }
    if delivery.app_file || delivery.app_archive {
        return Err(PreflightError::AppPayload { payload });
    }
    match &delivery.slot {
        Some(name) => {
            let aliased_slot = match group {
                Some(group) => group.get_slot(name.as_str()),
                None => None,
            };
            let found = match aliased_slot {
                Some(slot) => Some(slot),
                None => slots.find_by_name(name.as_str()),
            };
            match found {
                None => Err(PreflightError::UnknownSlot { payload }),
                Some(slot) => {
                    assert(slot < slots.slots@.len());
                    if !slots.slots[slot].is_available() {
                        Err(PreflightError::UnavailableSlot { payload, slot })
                    } else if slots.slots[slot].active {
                        Err(PreflightError::ActiveSlot { payload, slot })
                    } else if contains_destination(earlier, SystemPayloadDestination::Slot(slot)) {
                        Err(PreflightError::DuplicateSlot { payload, slot })
                    } else {
                        Ok(SystemPayloadDestination::Slot(slot))
                    }
                },
            }
        },
        None => Ok(SystemPayloadDestination::Execute),
    }
}

/// Finds the destinations of the payloads of a bundle, without changing anything.
pub fn preflight_system_deliveries(
    is_incremental: bool,
    deliveries: &Vec<PayloadDelivery>,
    slots: &SystemSlots,
    group: Option<&BootGroup>,
) -> (r: Result<Vec<SystemPayloadDestination>, PreflightError>)
    requires
        group matches Some(g) ==> g.wf(slots.slots@.len()),
    ensures
        ({
            let expected = preflight(
                is_incremental,
                deliveries@,
                slots.slots@,
                match group {
                    Some(g) => Some(*g),
                    None => None,
                },
            );
            match r {
                Ok(all) => expected == Ok::<Seq<SystemPayloadDestination>, PreflightError>(all@),
                Err(e) => expected == Err::<Seq<SystemPayloadDestination>, PreflightError>(e),
            }
        }),
{
    let ghost g: Option<BootGroup> = match group {
        Some(g) => Some(*g),
        None => None,
    };
    if !is_incremental && group.is_none() {
        return Err(PreflightError::MissingBootGroup);
    }
    let mut all: Vec<SystemPayloadDestination> = Vec::new();
    let mut slot_payloads: bool = false;
    let mut i: usize = 0;
    while i < deliveries.len()
        invariant
            i <= deliveries@.len(),
            group matches Some(g) ==> g.wf(slots.slots@.len()),
            g == match group {
                Some(g) => Some(*g),
                None => None,
            },
            !is_incremental ==> group is Some,
            destinations(deliveries@, slots.slots@, g, i as nat) == Ok::<
                Seq<SystemPayloadDestination>,
                PreflightError,
            >(all@),
            slot_payloads == exists|k: int| 0 <= k < all@.len() && (#[trigger] all@[k]) is Slot,
        decreases deliveries@.len() - i,
    {
        match destination_of(&deliveries[i], i, slots, group, &all) {
            Ok(d) => {
                let ghost before = all@;
                all.push(d);
                proof {
                    if slot_payloads {
                        let k = choose|k: int| 0 <= k < before.len() && (#[trigger] before[k]) is Slot;
                        assert(all@[k] is Slot);
                    }
                    assert(all@[before.len() as int] == d);
                    assert forall|k: int| 0 <= k < all@.len() && (#[trigger] all@[k]) is Slot implies
                        slot_payloads || d is Slot by {
                        if k < before.len() {
                            assert(before[k] is Slot);
                        }
                    }
                }
                match d {
                    SystemPayloadDestination::Slot(_) => {
                        slot_payloads = true;
                    },
                    SystemPayloadDestination::Execute => {},
                }
            },
            Err(e) => {
                proof {
                    lemma_error_stays(deliveries@, slots.slots@, g, (i + 1) as nat, e);
                }
                return Err(e);
            },
        }
        i = i + 1;
    }
    if all.len() == 0 {
        return Err(PreflightError::NoPayloads);
    }
    if !is_incremental && !slot_payloads {
        return Err(PreflightError::NoSlotPayload);
    }
    Ok(all)
}

proof fn lemma_error_stays(
    deliveries: Seq<PayloadDelivery>,
    slots: Seq<Slot>,
    group: Option<BootGroup>,
    n: nat,
    e: PreflightError,
)
    requires
        n <= deliveries.len(),
        destinations(deliveries, slots, group, n) == Err::<Seq<SystemPayloadDestination>, PreflightError>(
            e,
        ),
    ensures
        destinations(deliveries, slots, group, deliveries.len()) == Err::<
            Seq<SystemPayloadDestination>,
            PreflightError,
        >(e),
    decreases deliveries.len() - n,
{
    if n < deliveries.len() {
        lemma_error_stays(deliveries, slots, group, n + 1, e);
    }
}

} // verus!
