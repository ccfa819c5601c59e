//! Slots that payloads are installed to.

use vstd::prelude::*;
use crate::text::same;

verus! {

/// Where a slot stores its data.
#[derive(Debug)]
pub enum SlotKind {
    /// A block device; an optional one may be absent.
    Block { device: Option<String> },
    /// A file.
    File { path: String },
    /// A command that consumes the data.
    Custom { handler: Vec<String> },
}

/// A slot of the system.
#[derive(Debug)]
pub struct Slot {
    pub name: String,
    pub kind: SlotKind,
    /// Whether the slot belongs to the running system.
    pub active: bool,
    /// Whether the data stays as it was installed.
    pub immutable: bool,
}

/// The slots of the system, in the order of their configuration.
#[derive(Debug)]
pub struct SystemSlots {
    pub slots: Vec<Slot>,
}

impl Slot {
    /// Whether data can be installed to the slot.
    pub open spec fn available(self) -> bool {
        match self.kind {
            SlotKind::Block { device } => device is Some,
            _ => true,
        }
    }

    /// Whether data can be installed to the slot.
    pub fn is_available(&self) -> (r: bool)
        ensures
            r == self.available(),
    {
        match &self.kind {
            SlotKind::Block { device } => device.is_some(),
            _ => true,
        }
    }
}

/// The first slot from `from` on that has the given name.
pub open spec fn slot_named(slots: Seq<Slot>, name: Seq<char>, from: nat) -> Option<usize>
    decreases slots.len() - from,
{
    if from >= slots.len() {
        None
    } else if slots[from as int].name@ == name {
        Some(from as usize)
    } else {
        slot_named(slots, name, from + 1)
    }
}

impl SystemSlots {
    /// Finds a slot by its name.
    pub fn find_by_name(&self, name: &str) -> (r: Option<usize>)
        ensures
            r == slot_named(self.slots@, name@, 0),
            r matches Some(i) ==> i < self.slots@.len() && self.slots@[i as int].name@ == name@,
    {
        let mut i: usize = 0;
        while i < self.slots.len()
            invariant
                i <= self.slots@.len(),
                slot_named(self.slots@, name@, 0) == slot_named(self.slots@, name@, i as nat),
            decreases self.slots@.len() - i,
        {
            if same(self.slots[i].name.as_str(), name) {
                return Some(i);
            }
            i = i + 1;
        }
        None
    }
}

/// A slot that is found has the name that was looked for.
pub proof fn lemma_slot_named(slots: Seq<Slot>, name: Seq<char>, from: nat)
    requires
        slots.len() <= usize::MAX,
    ensures
        slot_named(slots, name, from) matches Some(i) ==> i < slots.len() && slots[i as int].name@
            == name,
    decreases slots.len() - from,
{
    if from < slots.len() && slots[from as int].name@ != name {
        lemma_slot_named(slots, name, from + 1);
    }
}

/// Whether a slot is the first one that has the given name.
pub open spec fn is_first_named(slots: Seq<Slot>, name: Seq<char>, i: int) -> bool {
    &&& 0 <= i < slots.len()
    &&& slots[i].name@ == name
    &&& forall|k: int| 0 <= k < i ==> (#[trigger] slots[k]).name@ != name
}

/// Whether no slot has the given name.
pub open spec fn has_no_slot(slots: Seq<Slot>, name: Seq<char>) -> bool {
    forall|k: int| 0 <= k < slots.len() ==> (#[trigger] slots[k]).name@ != name
}

proof fn lemma_first_named(slots: Seq<Slot>, name: Seq<char>, from: nat)
    requires
        from <= slots.len() <= usize::MAX,
        forall|k: int| 0 <= k < from ==> (#[trigger] slots[k]).name@ != name,
    ensures
        match slot_named(slots, name, from) {
            Some(i) => is_first_named(slots, name, i as int),
            None => has_no_slot(slots, name),
        },
    decreases slots.len() - from,
{
    if from < slots.len() && slots[from as int].name@ != name {
        lemma_first_named(slots, name, from + 1);
    }
}

/// A slot is found by its name wherever one has it, and it is the first one that does.
pub proof fn law_slot_is_found_by_its_name(slots: Seq<Slot>, name: Seq<char>)
    requires
        slots.len() <= usize::MAX,
    ensures
        match slot_named(slots, name, 0) {
            Some(i) => is_first_named(slots, name, i as int),
            None => has_no_slot(slots, name),
        },
{
    lemma_first_named(slots, name, 0);
}

} // verus!
