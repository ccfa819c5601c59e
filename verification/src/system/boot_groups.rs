//! Boot groups: the sets of slots that the device can boot from.

use vstd::prelude::*;
use crate::text::same;

verus! {

/// A boot group.
#[derive(Debug)]
pub struct BootGroup {
    pub name: String,
    /// Aliases of the group and the indices of the slots that they stand for.
    pub slots: Vec<(String, usize)>,
    /// Whether the device is running from this group.
    pub active: bool,
}

/// The boot groups of the system, in the order of their configuration.
#[derive(Debug)]
pub struct BootGroups {
    pub groups: Vec<BootGroup>,
}

/// The slot of the first alias from `from` on that is the given one.
pub open spec fn aliased(slots: Seq<(String, usize)>, alias: Seq<char>, from: nat) -> Option<usize>
    decreases slots.len() - from,
{
    if from >= slots.len() {
        None
    } else if slots[from as int].0@ == alias {
        Some(slots[from as int].1)
    } else {
        aliased(slots, alias, from + 1)
    }
}

impl BootGroup {
    /// Whether every alias stands for one of `n` slots.
    pub open spec fn wf(self, n: nat) -> bool {
        forall|i: int| 0 <= i < self.slots@.len() ==> (#[trigger] self.slots@[i]).1 < n
    }

    /// The slot that an alias of the group stands for.
    pub fn get_slot(&self, alias: &str) -> (r: Option<usize>)
        ensures
            r == aliased(self.slots@, alias@, 0),
            forall|n: nat| #[trigger] self.wf(n) ==> (r matches Some(slot) ==> slot < n),
    {
        let mut i: usize = 0;
        while i < self.slots.len()
            invariant
                i <= self.slots@.len(),
                aliased(self.slots@, alias@, 0) == aliased(self.slots@, alias@, i as nat),
            decreases self.slots@.len() - i,
        {
            if same(self.slots[i].0.as_str(), alias) {
                return Some(self.slots[i].1);
            }
            i = i + 1;
        }
        None
    }
}

/// The first group from `from` on that has the given name.
pub open spec fn group_named(groups: Seq<BootGroup>, name: Seq<char>, from: nat) -> Option<usize>
    decreases groups.len() - from,
{
    if from >= groups.len() {
        None
    } else if groups[from as int].name@ == name {
        Some(from as usize)
    } else {
        group_named(groups, name, from + 1)
    }
}

/// The first group from `from` on that is not active.
pub open spec fn inactive_group(groups: Seq<BootGroup>, from: nat) -> Option<usize>
    decreases groups.len() - from,
{
    if from >= groups.len() {
        None
    } else if !groups[from as int].active {
        Some(from as usize)
    } else {
        inactive_group(groups, from + 1)
    }
}

/// The first group from `from` on that is not the given one.
pub open spec fn other_group(n: nat, group: nat, from: nat) -> Option<usize> {
    if from >= n {
        None
    } else if from != group {
        Some(from as usize)
    } else if from + 1 < n {
        Some((from + 1) as usize)
    } else {
        None
    }
}

/// Whether an alias is the first one that is the given one.
pub open spec fn is_first_alias(slots: Seq<(String, usize)>, alias: Seq<char>, k: int) -> bool {
    &&& 0 <= k < slots.len()
    &&& slots[k].0@ == alias
    &&& forall|j: int| 0 <= j < k ==> (#[trigger] slots[j]).0@ != alias
}

/// Whether none of the aliases is the given one.
pub open spec fn has_no_alias(slots: Seq<(String, usize)>, alias: Seq<char>) -> bool {
    forall|j: int| 0 <= j < slots.len() ==> (#[trigger] slots[j]).0@ != alias
}

proof fn lemma_aliased(slots: Seq<(String, usize)>, alias: Seq<char>, from: nat)
    requires
        from <= slots.len(),
        forall|j: int| 0 <= j < from ==> (#[trigger] slots[j]).0@ != alias,
    ensures
        match aliased(slots, alias, from) {
            Some(slot) => exists|k: int|
                #[trigger] is_first_alias(slots, alias, k) && slots[k].1 == slot,
            None => has_no_alias(slots, alias),
        },
    decreases slots.len() - from,
{
    if from < slots.len() {
        if slots[from as int].0@ == alias {
            assert(is_first_alias(slots, alias, from as int));
        } else {
            lemma_aliased(slots, alias, from + 1);
        }
    }
}

/// An alias stands for the slot that its first occurrence names, and an alias that does not
/// occur stands for none.
pub proof fn law_alias_stands_for_its_slot(slots: Seq<(String, usize)>, alias: Seq<char>)
    ensures
        match aliased(slots, alias, 0) {
            Some(slot) => exists|k: int|
                #[trigger] is_first_alias(slots, alias, k) && slots[k].1 == slot,
            None => has_no_alias(slots, alias),
        },
{
    lemma_aliased(slots, alias, 0);
}

proof fn lemma_named(groups: Seq<BootGroup>, name: Seq<char>, from: nat)
    requires
        groups.len() <= usize::MAX,
    ensures
        match group_named(groups, name, from) {
            Some(i) => from <= i < groups.len() && groups[i as int].name@ == name && forall|k: int|
                from <= k < i ==> (#[trigger] groups[k]).name@ != name,
            None => forall|k: int| from <= k < groups.len() ==> (#[trigger] groups[k]).name@ != name,
        },
    decreases groups.len() - from,
{
    if from < groups.len() && groups[from as int].name@ != name {
        lemma_named(groups, name, from + 1);
    }
}

/// A group is found by its name wherever one has it, and it is the first one that does.
pub proof fn law_group_is_found_by_its_name(groups: Seq<BootGroup>, name: Seq<char>)
    requires
        groups.len() <= usize::MAX,
    ensures
        match group_named(groups, name, 0) {
            Some(i) => i < groups.len() && groups[i as int].name@ == name && forall|k: int|
                0 <= k < i ==> (#[trigger] groups[k]).name@ != name,
            None => forall|k: int| 0 <= k < groups.len() ==> (#[trigger] groups[k]).name@ != name,
        },
{
    lemma_named(groups, name, 0);
}

proof fn lemma_inactive(groups: Seq<BootGroup>, from: nat)
    requires
        groups.len() <= usize::MAX,
    ensures
        match inactive_group(groups, from) {
            Some(i) => from <= i < groups.len() && !groups[i as int].active && forall|k: int|
                from <= k < i ==> (#[trigger] groups[k]).active,
            None => forall|k: int| from <= k < groups.len() ==> (#[trigger] groups[k]).active,
        },
    decreases groups.len() - from,
{
    if from < groups.len() && groups[from as int].active {
        lemma_inactive(groups, from + 1);
    }
}

/// An inactive group is found wherever there is one, and it is the first one.
pub proof fn law_inactive_group_is_found(groups: Seq<BootGroup>)
    requires
        groups.len() <= usize::MAX,
    ensures
        match inactive_group(groups, 0) {
            Some(i) => i < groups.len() && !groups[i as int].active && forall|k: int|
                0 <= k < i ==> (#[trigger] groups[k]).active,
            None => forall|k: int| 0 <= k < groups.len() ==> (#[trigger] groups[k]).active,
        },
{
    lemma_inactive(groups, 0);
}

/// The spare group is the first one that is not the default; there is none where there is no
/// other group.
pub proof fn law_spare_group_is_not_the_default(n: nat, default: nat)
    requires
        n <= usize::MAX,
    ensures
        match other_group(n, default, 0) {
            Some(group) => group < n && group != default && forall|k: nat|
                #![trigger is_before(k, group as nat)]
                is_before(k, group as nat) ==> k == default,
            None => forall|k: nat| #![trigger is_before(k, n)] is_before(k, n) ==> k == default,
        },
{
}

/// Whether a number is smaller than another one.
pub open spec fn is_before(k: nat, n: nat) -> bool {
    k < n
}

impl BootGroups {
    /// Finds a group by its name.
    pub fn find_by_name(&self, name: &str) -> (r: Option<usize>)
        ensures
            r == group_named(self.groups@, name@, 0),
            r matches Some(i) ==> i < self.groups@.len() && self.groups@[i as int].name@ == name@,
    {
        let mut i: usize = 0;
        while i < self.groups.len()
            invariant
                i <= self.groups@.len(),
                group_named(self.groups@, name@, 0) == group_named(self.groups@, name@, i as nat),
            decreases self.groups@.len() - i,
        {
            if same(self.groups[i].name.as_str(), name) {
                return Some(i);
            }
            i = i + 1;
        }
        None
    }

    /// Finds the first group that is not active.
    pub fn find_inactive(&self) -> (r: Option<usize>)
        ensures
            r == inactive_group(self.groups@, 0),
            r matches Some(i) ==> i < self.groups@.len() && !self.groups@[i as int].active,
    {
        let mut i: usize = 0;
        while i < self.groups.len()
            invariant
                i <= self.groups@.len(),
                inactive_group(self.groups@, 0) == inactive_group(self.groups@, i as nat),
            decreases self.groups@.len() - i,
        {
            if !self.groups[i].active {
                return Some(i);
            }
            i = i + 1;
        }
        None
    }

    /// First group that is not the default.
    pub fn spare_entry(&self, default: usize) -> (r: Option<usize>)
        ensures
            r == other_group(self.groups@.len(), default as nat, 0),
            r matches Some(i) ==> i < self.groups@.len() && i != default,
    {
        let n: usize = self.groups.len();
        if n > 0 && default != 0 {
            Some(0)
        } else if n > 1 {
            Some(1)
        } else {
            None
        }
    }
}

} // verus!
