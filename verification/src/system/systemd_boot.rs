//! Boot flow for systemd-boot.
//!
//! EFI variables control which boot entry is selected by systemd-boot. All state changes
//! are atomic EFI variable writes performed by `bootctl`.

use vstd::prelude::*;
use crate::script::{owned, texts};
use crate::system::boot_groups::{group_named, BootGroups};
use crate::text::{chars_of, concat, opt_view, same, string_of_range, views};

verus! {

/// The map of the entries configuration.
#[verifier::external_type_specification]
#[verifier::external_body]
#[verifier::reject_recursive_types(K)]
#[verifier::reject_recursive_types(V)]
#[verifier::reject_recursive_types(S)]
pub struct ExIndexMap<K, V, S>(indexmap::IndexMap<K, V, S>);

/// The names and entry IDs of a configuration, in its order.
pub uninterp spec fn config_entries(
    config: indexmap::IndexMap<String, String>,
) -> Seq<(Seq<char>, Seq<char>)>;

/// `indexmap::IndexMap::len`: the number of entries.
#[verifier::external_body]
fn config_len(config: &indexmap::IndexMap<String, String>) -> (r: usize)
    ensures
        r == config_entries(*config).len(),
{
    config.len()
}

/// `indexmap::IndexMap::get_index`: the key and the value at a position, which is less
/// than the number of entries, else nothing.
#[verifier::external_body]
fn config_entry(config: &indexmap::IndexMap<String, String>, index: usize) -> (r: Option<
    (String, String),
>)
    ensures
        match r {
            Some(entry) => index < config_entries(*config).len() && (entry.0@, entry.1@)
                == config_entries(*config)[index as int],
            None => index >= config_entries(*config).len(),
        },
{
    config.get_index(index).map(|(key, value)| (key.clone(), value.clone()))
}

/// The text of UTF-16 code units.
pub uninterp spec fn utf16_text(units: Seq<u16>) -> Seq<char>;

/// `String::from_utf16_lossy`: the text of UTF-16 code units, named and not described.
#[verifier::external_body]
fn decode_utf16(units: &[u16]) -> (r: String)
    ensures
        r@ == utf16_text(units@),
{
    String::from_utf16_lossy(units)
}

/// The 16-bit numbers of bytes, the low byte first; a byte that is left over is dropped.
pub open spec fn little_endian_units(bytes: Seq<u8>) -> Seq<u16> {
    Seq::new(bytes.len() / 2, |i: int| (bytes[2 * i] + 256 * bytes[2 * i + 1]) as u16)
}

/// A text without the NUL characters at its end.
pub open spec fn without_nuls(s: Seq<char>) -> Seq<char>
    decreases s.len(),
{
    if s.len() > 0 && s.last() == '\0' {
        without_nuls(s.drop_last())
    } else {
        s
    }
}

/// The text of an EFI variable: after four bytes of attributes, in UTF-16.
pub open spec fn variable_text(data: Seq<u8>) -> Option<Seq<char>> {
    if data.len() < 4 {
        None
    } else {
        Some(without_nuls(utf16_text(little_endian_units(data.skip(4)))))
    }
}

fn trim_nuls(s: &str) -> (r: String)
    ensures
        r@ == without_nuls(s@),
{
    let chars = chars_of(s);
    let mut n: usize = chars.len();
    assert(s@.take(n as int) =~= s@);
    while n > 0 && chars[n - 1] == '\0'
        invariant
            n <= chars@.len(),
            chars@ == s@,
            without_nuls(s@.take(n as int)) == without_nuls(s@),
        decreases n,
    {
        assert(s@.take(n as int).drop_last() =~= s@.take(n - 1));
        n = n - 1;
    }
    let r = string_of_range(&chars, 0, n);
    assert(r@ =~= s@.take(n as int));
    r
}

/// Splits the bytes of an EFI variable into 16-bit numbers, after its attributes.
pub fn variable_units(data: &[u8]) -> (r: Vec<u16>)
    requires
        data@.len() >= 4,
    ensures
        r@ == little_endian_units(data@.skip(4)),
{
    let mut units: Vec<u16> = Vec::new();
    let mut i: usize = 4;
    let ghost bytes = data@.skip(4);
    while data.len() - i >= 2
        invariant
            4 <= i <= data@.len(),
            i % 2 == 0,
            bytes == data@.skip(4),
            units@.len() == (i - 4) / 2,
            forall|k: int|
                0 <= k < units@.len() ==> (#[trigger] units@[k]) == little_endian_units(bytes)[k],
        decreases data@.len() - i,
    {
        let low: u16 = data[i] as u16;
        let high: u16 = data[i + 1] as u16;
        assert(bytes[i - 4] == data@[i as int]);
        assert(bytes[i - 3] == data@[i + 1]);
        units.push(low + 256 * high);
        i = i + 2;
    }
    assert(units@ =~= little_endian_units(bytes));
    units
}

/// Decodes the value of a loader variable.
pub fn decode_loader_variable(data: &[u8]) -> (r: Option<String>)
    ensures
        opt_view(r) == variable_text(data@),
{
    if data.len() < 4 {
        return None;
    }
    let units = variable_units(data);
    let text = decode_utf16(units.as_slice());
    Some(trim_nuls(text.as_str()))
}

/// The path of a loader variable.
pub open spec fn variable_path(name: Seq<char>) -> Seq<char> {
    "/sys/firmware/efi/efivars/"@ + name + "-4a67b082-0a4c-41cf-b6c7-440b29bb8c4f"@
}

/// The path of a loader variable.
pub fn loader_variable_path(name: &str) -> (r: String)
    ensures
        r@ == variable_path(name@),
{
    let start = concat("/sys/firmware/efi/efivars/", name);
    concat(start.as_str(), "-4a67b082-0a4c-41cf-b6c7-440b29bb8c4f")
}

/// Why the boot flow cannot be used.
#[derive(Debug, Clone, Copy, PartialEq, Eq, Structural)]
pub enum SystemdBootError {
    /// An entry is configured for a boot group that does not exist; its position.
    UnknownGroup { index: usize },
    /// At least two entries are required.
    TooFewEntries,
    /// No entry is configured for the boot group.
    NoEntry,
    /// The active boot group is not known.
    NoActiveGroup,
}

/// Systemd-boot boot flow implementation.
#[derive(Debug)]
pub struct SystemdBootFlow {
    /// Mapping from boot group indices to systemd-boot entry IDs.
    pub entries: Vec<(usize, String)>,
}

/// The entry ID of the first entry from `from` on for a group.
pub open spec fn entry_of_group(entries: Seq<(usize, String)>, group: usize, from: nat) -> Option<
    Seq<char>,
>
    decreases entries.len() - from,
{
    if from >= entries.len() {
        None
    } else if entries[from as int].0 == group {
        Some(entries[from as int].1@)
    } else {
        entry_of_group(entries, group, from + 1)
    }
}

/// The group of the first entry from `from` on with an entry ID.
pub open spec fn group_of_entry(entries: Seq<(usize, String)>, id: Seq<char>, from: nat) -> Option<
    usize,
>
    decreases entries.len() - from,
{
    if from >= entries.len() {
        None
    } else if entries[from as int].1@ == id {
        Some(entries[from as int].0)
    } else {
        group_of_entry(entries, id, from + 1)
    }
}

impl SystemdBootFlow {
    /// At least two entries are configured.
    pub open spec fn wf(self) -> bool {
        self.entries@.len() >= 2
    }

    /// Whether the first `n` entries are those of the configuration.
    pub open spec fn resolves(
        entries: Seq<(usize, String)>,
        config: Seq<(Seq<char>, Seq<char>)>,
        groups: BootGroups,
        n: nat,
    ) -> bool {
        forall|i: int|
            0 <= i < n ==> group_named(groups.groups@, config[i].0, 0) == Some(
                (#[trigger] entries[i]).0,
            ) && entries[i].1@ == config[i].1
    }

    /// The boot flow of a configuration.
    pub fn new(groups: &BootGroups, config: &indexmap::IndexMap<String, String>) -> (r: Result<
        Self,
        SystemdBootError,
    >)
        ensures
            match r {
                Ok(flow) => {
                    &&& flow.wf()
                    &&& flow.entries@.len() == config_entries(*config).len()
                    &&& Self::resolves(
                        flow.entries@,
                        config_entries(*config),
                        *groups,
                        config_entries(*config).len(),
                    )
                },
                Err(SystemdBootError::UnknownGroup { index }) => {
                    let all = config_entries(*config);
                    &&& index < all.len()
                    &&& group_named(groups.groups@, all[index as int].0, 0) is None
                    &&& forall|i: int|
                        0 <= i < index ==> group_named(groups.groups@, (#[trigger] all[i]).0, 0)
                            is Some
                },
                Err(e) => e == SystemdBootError::TooFewEntries && config_entries(*config).len()
                    < 2,
            },
    {
        let mut entries: Vec<(usize, String)> = Vec::new();
        let ghost all = config_entries(*config);
        let count: usize = config_len(config);
        let mut i: usize = 0;
        while i < count
            invariant
                i <= count == all.len(),
                all == config_entries(*config),
                entries@.len() == i,
                Self::resolves(entries@, all, *groups, i as nat),
            decreases count - i,
        {
            if let Some((name, id)) = config_entry(config, i) {
                match groups.find_by_name(name.as_str()) {
                    Some(group) => {
                        entries.push((group, id));
                    },
                    None => {
                        assert forall|k: int| 0 <= k < i implies group_named(
                            groups.groups@,
                            (#[trigger] all[k]).0,
                            0,
                        ) is Some by {
                            assert(entries@[k].1@ == all[k].1);
                        }
                        return Err(SystemdBootError::UnknownGroup { index: i });
                    },
                }
            }
            i = i + 1;
        }
        if entries.len() < 2 {
            return Err(SystemdBootError::TooFewEntries);
        }
        Ok(SystemdBootFlow { entries })
    }

    /// The name of the boot flow.
    pub fn name(&self) -> (r: &'static str)
        ensures
            r@ == "systemd-boot"@,
    {
        "systemd-boot"
    }

    fn entry_id_for_group(&self, group: usize) -> (r: Option<&str>)
        ensures
            match r {
                Some(id) => entry_of_group(self.entries@, group, 0) == Some(id@),
                None => entry_of_group(self.entries@, group, 0) is None,
            },
    {
        let mut i: usize = 0;
        while i < self.entries.len()
            invariant
                i <= self.entries@.len(),
                entry_of_group(self.entries@, group, 0) == entry_of_group(
                    self.entries@,
                    group,
                    i as nat,
                ),
            decreases self.entries@.len() - i,
        {
            if self.entries[i].0 == group {
                return Some(self.entries[i].1.as_str());
            }
            i = i + 1;
        }
        None
    }

    fn group_for_entry_id(&self, id: &str) -> (r: Option<usize>)
        ensures
            r == group_of_entry(self.entries@, id@, 0),
    {
        let mut i: usize = 0;
        while i < self.entries.len()
            invariant
                i <= self.entries@.len(),
                group_of_entry(self.entries@, id@, 0) == group_of_entry(
                    self.entries@,
                    id@,
                    i as nat,
                ),
            decreases self.entries@.len() - i,
        {
            if same(self.entries[i].1.as_str(), id) {
                return Some(self.entries[i].0);
            }
            i = i + 1;
        }
        None
    }

    /// The group that is booted by default: the one of `LoaderEntryDefault`, else the one
    /// of the first entry.
    pub fn get_default(&self, variable: Option<&str>) -> (r: usize)
        requires
            self.wf(),
        ensures
            r == match variable {
                Some(id) => match group_of_entry(self.entries@, id@, 0) {
                    Some(group) => group,
                    None => self.entries@[0].0,
                },
                None => self.entries@[0].0,
            },
    {
        if let Some(id) = variable {
            if let Some(group) = self.group_for_entry_id(id) {
                return group;
            }
        }
        self.entries[0].0
    }

    /// The command that selects a group for the next boot.
    pub fn set_try_next(&self, group: usize) -> (r: Result<Vec<String>, SystemdBootError>)
        ensures
            match r {
                Ok(args) => entry_of_group(self.entries@, group, 0) is Some && views(args@)
                    == seq![
                    "bootctl"@,
                    "set-oneshot"@,
                    entry_of_group(self.entries@, group, 0)->0,
                ],
                Err(e) => e == SystemdBootError::NoEntry && entry_of_group(
                    self.entries@,
                    group,
                    0,
                ) is None,
            },
    {
        match self.entry_id_for_group(group) {
            Some(id) => {
                let args = ["bootctl", "set-oneshot", id];
                assert(texts(args@) =~= seq!["bootctl"@, "set-oneshot"@, id@]);
                Ok(owned(&args))
            },
            None => Err(SystemdBootError::NoEntry),
        }
    }

    /// The command that makes the active group the one that is booted by default.
    pub fn commit(&self, active: Option<usize>) -> (r: Result<Vec<String>, SystemdBootError>)
        ensures
            match r {
                Ok(args) => active is Some && entry_of_group(self.entries@, active->0, 0) is Some
                    && views(args@) == seq![
                    "bootctl"@,
                    "set-default"@,
                    entry_of_group(self.entries@, active->0, 0)->0,
                ],
                Err(e) => if active is None {
                    e == SystemdBootError::NoActiveGroup
                } else {
                    e == SystemdBootError::NoEntry && entry_of_group(
                        self.entries@,
                        active->0,
                        0,
                    ) is None
                },
            },
    {
        let group: usize = match active {
            Some(group) => group,
            None => return Err(SystemdBootError::NoActiveGroup),
        };
        match self.entry_id_for_group(group) {
            Some(id) => {
                let args = ["bootctl", "set-default", id];
                assert(texts(args@) =~= seq!["bootctl"@, "set-default"@, id@]);
                Ok(owned(&args))
            },
            None => Err(SystemdBootError::NoEntry),
        }
    }

    /// The group that was booted: the one of `LoaderEntrySelected`, which is set at boot
    /// time and does not change afterwards.
    pub fn get_active(&self, variable: Option<&str>) -> (r: Option<usize>)
        ensures
            r == match variable {
                Some(id) => group_of_entry(self.entries@, id@, 0),
                None => None,
            },
    {
        match variable {
            Some(id) => self.group_for_entry_id(id),
            None => None,
        }
    }
}

/// A group that is made the default is the default afterwards: the boot loader stores the
/// entry ID that the command names, and that ID leads back to the group, provided that no
/// two entries have the same ID.
pub proof fn law_committed_entry_is_the_default(flow: SystemdBootFlow, group: usize)
    requires
        entry_of_group(flow.entries@, group, 0) is Some,
        forall|i: int, j: int|
            0 <= i < j < flow.entries@.len() ==> (#[trigger] flow.entries@[i]).1@ != (
            #[trigger] flow.entries@[j]).1@,
    ensures
        group_of_entry(flow.entries@, entry_of_group(flow.entries@, group, 0)->0, 0) == Some(group),
{
    lemma_entry_leads_back(flow.entries@, group, 0);
}

proof fn lemma_entry_leads_back(entries: Seq<(usize, String)>, group: usize, from: nat)
    requires
        entry_of_group(entries, group, from) is Some,
        forall|i: int, j: int|
            0 <= i < j < entries.len() ==> (#[trigger] entries[i]).1@ != (
            #[trigger] entries[j]).1@,
    ensures
        group_of_entry(entries, entry_of_group(entries, group, from)->0, from) == Some(group),
        exists|k: int|
            from <= k < entries.len() && (#[trigger] entries[k]).1@ == entry_of_group(
                entries,
                group,
                from,
            )->0,
    decreases entries.len() - from,
{
    if entries[from as int].0 == group {
        assert(entries[from as int].1@ == entry_of_group(entries, group, from)->0);
    } else {
        lemma_entry_leads_back(entries, group, from + 1);
        let k = choose|k: int|
            from + 1 <= k < entries.len() && (#[trigger] entries[k]).1@ == entry_of_group(
                entries,
                group,
                from + 1,
            )->0;
        assert(entries[from as int].1@ != entries[k].1@);
    }
}

/// Whether an entry is the first one that is for a group.
pub open spec fn is_first_for(entries: Seq<(usize, String)>, group: usize, k: int) -> bool {
    &&& 0 <= k < entries.len()
    &&& entries[k].0 == group
    &&& forall|j: int| 0 <= j < k ==> (#[trigger] entries[j]).0 != group
}

/// Whether an entry is the first one that has an ID.
pub open spec fn is_first_with(entries: Seq<(usize, String)>, id: Seq<char>, k: int) -> bool {
    &&& 0 <= k < entries.len()
    &&& entries[k].1@ == id
    &&& forall|j: int| 0 <= j < k ==> (#[trigger] entries[j]).1@ != id
}

proof fn lemma_entry_of_group(entries: Seq<(usize, String)>, group: usize, from: nat)
    requires
        from <= entries.len(),
        forall|j: int| 0 <= j < from ==> (#[trigger] entries[j]).0 != group,
    ensures
        match entry_of_group(entries, group, from) {
            Some(id) => exists|k: int|
                #[trigger] is_first_for(entries, group, k) && entries[k].1@ == id,
            None => forall|j: int| 0 <= j < entries.len() ==> (#[trigger] entries[j]).0 != group,
        },
    decreases entries.len() - from,
{
    if from < entries.len() {
        if entries[from as int].0 == group {
            assert(is_first_for(entries, group, from as int));
        } else {
            lemma_entry_of_group(entries, group, from + 1);
        }
    }
}

proof fn lemma_group_of_entry(entries: Seq<(usize, String)>, id: Seq<char>, from: nat)
    requires
        from <= entries.len(),
        forall|j: int| 0 <= j < from ==> (#[trigger] entries[j]).1@ != id,
    ensures
        match group_of_entry(entries, id, from) {
            Some(group) => exists|k: int|
                #[trigger] is_first_with(entries, id, k) && entries[k].0 == group,
            None => forall|j: int| 0 <= j < entries.len() ==> (#[trigger] entries[j]).1@ != id,
        },
    decreases entries.len() - from,
{
    if from < entries.len() {
        if entries[from as int].1@ == id {
            assert(is_first_with(entries, id, from as int));
        } else {
            lemma_group_of_entry(entries, id, from + 1);
        }
    }
}

/// A group has the ID of its first entry, and an ID belongs to the group of the first entry
/// that has it. What no entry is about has neither.
pub proof fn law_entries_map_groups_to_ids(
    entries: Seq<(usize, String)>,
    group: usize,
    id: Seq<char>,
)
    ensures
        match entry_of_group(entries, group, 0) {
            Some(found) => exists|k: int|
                #[trigger] is_first_for(entries, group, k) && entries[k].1@ == found,
            None => forall|j: int| 0 <= j < entries.len() ==> (#[trigger] entries[j]).0 != group,
        },
        match group_of_entry(entries, id, 0) {
            Some(found) => exists|k: int|
                #[trigger] is_first_with(entries, id, k) && entries[k].0 == found,
            None => forall|j: int| 0 <= j < entries.len() ==> (#[trigger] entries[j]).1@ != id,
        },
{
    lemma_entry_of_group(entries, group, 0);
    lemma_group_of_entry(entries, id, 0);
}

/// Only the NUL characters at the end of a text are dropped, and all of them.
pub proof fn law_only_final_nuls_are_dropped(s: Seq<char>)
    ensures
        without_nuls(s).is_prefix_of(s),
        without_nuls(s).len() > 0 ==> without_nuls(s).last() != '\0',
        forall|i: int| without_nuls(s).len() <= i < s.len() ==> #[trigger] s[i] == '\0',
    decreases s.len(),
{
    if s.len() > 0 && s.last() == '\0' {
        law_only_final_nuls_are_dropped(s.drop_last());
        assert forall|i: int| without_nuls(s).len() <= i < s.len() implies #[trigger] s[i]
            == '\0' by {
            if i < s.len() - 1 {
                assert(s.drop_last()[i] == s[i]);
            }
        }
    }
}

} // verus!
