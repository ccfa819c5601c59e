//! RAUC-compatible boot flows.
//!
//! The boot loader keeps its choice in variables: an order of groups, and per
//! group either a number of attempts that are left (U-Boot) or a pair of flags
//! (GRUB).

use vstd::prelude::*;
use crate::system::boot_groups::{BootGroup, BootGroups};
use crate::system::custom::BootFlowCapabilities;
use crate::text::{
    clone_strings, concat, contains_str, digits_value, is_white, join, joined, opt_view,
    parse_u32, parsed, split_whitespace, trim, trim_end, trim_start, trimmed, views, words,
};

verus! {

/// Variables of a boot loader environment.
#[verifier::external_body]
#[derive(Debug)]
pub struct BootEnv {
    vars: hashbrown::HashMap<String, String>,
}

/// The variables that an environment holds.
pub uninterp spec fn env_vars(env: BootEnv) -> Map<Seq<char>, Seq<char>>;

/// No variables.
pub open spec fn no_vars() -> Map<Seq<char>, Seq<char>> {
    Map::empty()
}

/// `hashbrown::HashMap::new`: a fresh map holds nothing.
#[verifier::external_body]
fn env_empty() -> (r: BootEnv)
    ensures
        env_vars(r) == no_vars(),
{
    BootEnv { vars: hashbrown::HashMap::new() }
}

/// `hashbrown::HashMap::insert`: afterwards the map holds the value under the key,
/// and everything else as before.
#[verifier::external_body]
fn env_insert(env: &mut BootEnv, name: String, value: String)
    ensures
        env_vars(*final(env)) == env_vars(*old(env)).insert(name@, value@),
{
    env.vars.insert(name, value);
}

/// `hashbrown::HashMap::get`: the value under the key, where there is one.
#[verifier::external_body]
fn env_get(env: &BootEnv, name: &str) -> (r: Option<String>)
    ensures
        r is Some == env_vars(*env).contains_key(name@),
        r is Some ==> r->0@ == env_vars(*env)[name@],
{
    env.vars.get(name).cloned()
}

/// Whether a list holds each of the variables once, with its value.
pub open spec fn lists_vars(list: Seq<(String, String)>, vars: Map<Seq<char>, Seq<char>>) -> bool {
    &&& forall|i: int|
        0 <= i < list.len() ==> vars.contains_key((#[trigger] list[i]).0@) && vars[list[i].0@]
            == list[i].1@
    &&& forall|i: int, j: int|
        0 <= i < j < list.len() ==> (#[trigger] list[i]).0@ != (#[trigger] list[j]).0@
    &&& forall|name: Seq<char>| #[trigger]
        vars.contains_key(name) ==> exists|i: int|
            0 <= i < list.len() && (#[trigger] list[i]).0@ == name
}

/// `hashbrown::HashMap::iter`: every entry of the map once, in an order that is left
/// open.
#[verifier::external_body]
fn env_entries(env: &BootEnv) -> (r: Vec<(String, String)>)
    ensures
        lists_vars(r@, env_vars(*env)),
{
    env.vars.iter().map(|(name, value)| (name.clone(), value.clone())).collect()
}

impl BootEnv {
    /// An environment without variables.
    pub fn new() -> (r: Self)
        ensures
            env_vars(r) == no_vars(),
    {
        env_empty()
    }

    /// Sets a variable.
    pub fn set(&mut self, name: String, value: String)
        ensures
            env_vars(*final(self)) == env_vars(*old(self)).insert(name@, value@),
    {
        env_insert(self, name, value)
    }

    /// Reads a variable.
    pub fn get(&self, name: &str) -> (r: Option<String>)
        ensures
            r is Some == env_vars(*self).contains_key(name@),
            r is Some ==> r->0@ == env_vars(*self)[name@],
    {
        env_get(self, name)
    }

    /// The variables with their values, in no particular order.
    pub fn entries(&self) -> (r: Vec<(String, String)>)
        ensures
            lists_vars(r@, env_vars(*self)),
    {
        env_entries(self)
    }
}

/// Names that were seen.
#[verifier::external_body]
pub struct NameSet {
    names: hashbrown::HashSet<String>,
}

/// The names that a set holds.
pub uninterp spec fn set_names(set: NameSet) -> Set<Seq<char>>;

/// `hashbrown::HashSet::new`: a fresh set holds nothing.
#[verifier::external_body]
fn names_empty() -> (r: NameSet)
    ensures
        set_names(r) == Set::<Seq<char>>::empty(),
{
    NameSet { names: hashbrown::HashSet::new() }
}

/// `hashbrown::HashSet::insert`: adds the name and says whether it was new.
#[verifier::external_body]
fn names_insert(set: &mut NameSet, name: String) -> (r: bool)
    ensures
        r == !set_names(*old(set)).contains(name@),
        set_names(*final(set)) == set_names(*old(set)).insert(name@),
{
    set.names.insert(name)
}

/// Names of the boot loader's groups, by the index of the boot group.
#[verifier::external_body]
#[derive(Debug)]
pub struct GroupNames {
    groups: hashbrown::HashMap<usize, String>,
}

/// The names by group index.
pub uninterp spec fn group_names(groups: GroupNames) -> Map<usize, Seq<char>>;

/// No groups.
pub open spec fn no_groups() -> Map<usize, Seq<char>> {
    Map::empty()
}

/// `hashbrown::HashMap::new`: a fresh map holds nothing.
#[verifier::external_body]
fn groups_empty() -> (r: GroupNames)
    ensures
        group_names(r) == no_groups(),
{
    GroupNames { groups: hashbrown::HashMap::new() }
}

/// `hashbrown::HashMap::insert`: afterwards the map holds the name under the index,
/// and everything else as before.
#[verifier::external_body]
fn groups_insert(groups: &mut GroupNames, group: usize, name: String)
    ensures
        group_names(*final(groups)) == group_names(*old(groups)).insert(group, name@),
{
    groups.groups.insert(group, name);
}

/// `hashbrown::HashMap::get`: the name under the index, where there is one.
#[verifier::external_body]
fn groups_get(groups: &GroupNames, group: usize) -> (r: Option<String>)
    ensures
        r is Some == group_names(*groups).contains_key(group),
        r is Some ==> r->0@ == group_names(*groups)[group],
{
    groups.groups.get(&group).cloned()
}

/// `hashbrown::HashMap::iter`: every entry of the map, in an order that is left
/// open.
#[verifier::external_body]
fn groups_entries(groups: &GroupNames) -> (r: Vec<(usize, String)>)
    ensures
        forall|i: int|
            0 <= i < r@.len() ==> group_names(*groups).contains_key((#[trigger] r@[i]).0)
                && group_names(*groups)[r@[i].0] == r@[i].1@,
        forall|k: usize| #[trigger]
            group_names(*groups).contains_key(k) ==> exists|i: int|
                0 <= i < r@.len() && (#[trigger] r@[i]).0 == k,
{
    groups.groups.iter().map(|(group, name)| (*group, name.clone())).collect()
}

/// The text in upper case, as Unicode defines it.
pub uninterp spec fn unicode_upper(s: Seq<char>) -> Seq<char>;

/// `str::to_uppercase`: the text in upper case, named and not described.
#[verifier::external_body]
fn to_upper(s: &str) -> (r: String)
    ensures
        r@ == unicode_upper(s@),
{
    s.to_uppercase()
}

/// Why a boot flow cannot answer.
#[derive(Debug, Clone, Copy, PartialEq, Eq, Structural)]
pub enum BootFlowError {
    /// At least two boot groups are required.
    TooFewGroups,
    /// The number of group names must match the number of boot groups.
    NameCount,
    /// Group names must not be empty.
    EmptyName,
    /// Group names must be unique.
    DuplicateName,
    /// The group is not one of the boot flow.
    InvalidGroup,
    /// The boot order is not known.
    UnknownBootOrder,
    /// No group of the boot order can be booted.
    UnknownDefault,
    /// The active group is not known.
    UnknownActiveGroup,
    /// The active group cannot be marked as bad.
    ActiveGroup,
}

/// Whether the first `n` names are not blank and differ.
pub open spec fn good_names(names: Seq<Seq<char>>, n: nat) -> bool {
    &&& forall|i: int| 0 <= i < n ==> trimmed(#[trigger] names[i]).len() > 0
    &&& forall|i: int, j: int| 0 <= i < j < n ==> #[trigger] names[i] != #[trigger] names[j]
}

/// The first position where the names stop being good.
pub open spec fn is_first_bad(names: Seq<Seq<char>>, i: int) -> bool {
    0 <= i < names.len() && good_names(names, i as nat) && !good_names(names, (i + 1) as nat)
}

/// Checks names: as many as there are boot groups, not blank, no two the same.
pub fn validate_group_names(names: &Vec<String>, count: usize) -> (r: Result<(), BootFlowError>)
    ensures
        r is Ok <==> names@.len() == count && good_names(views(names@), names@.len()),
        r matches Err(BootFlowError::NameCount) <==> names@.len() != count,
        r matches Err(BootFlowError::EmptyName) <==> names@.len() == count && exists|i: int| #[trigger]
            is_first_bad(views(names@), i) && trimmed(views(names@)[i]).len() == 0,
        r matches Err(BootFlowError::DuplicateName) <==> names@.len() == count && exists|i: int|
            #[trigger] is_first_bad(views(names@), i) && trimmed(views(names@)[i]).len() > 0,
        r matches Err(e) ==> e == BootFlowError::NameCount || e == BootFlowError::EmptyName || e
            == BootFlowError::DuplicateName,
{
    if names.len() != count {
        return Err(BootFlowError::NameCount);
    }
    let ghost all = views(names@);
    let mut seen = names_empty();
    let mut i: usize = 0;
    while i < names.len()
        invariant
            i <= names@.len() == count,
            all == views(names@),
            good_names(all, i as nat),
            forall|s: Seq<char>|
                set_names(seen).contains(s) <==> exists|k: int| 0 <= k < i && #[trigger] all[k] == s,
        decreases names@.len() - i,
    {
        assert(all[i as int] == names@[i as int]@);
        let bare = trim(names[i].as_str());
        if bare.as_str().is_empty() {
            proof {
                assert(!good_names(all, (i + 1) as nat));
                assert(is_first_bad(all, i as int));
                assert forall|j: int| is_first_bad(all, j) implies j == i by {
                    lemma_good_prefix(all, j, i as int);
                }
            }
            return Err(BootFlowError::EmptyName);
        }
        if !names_insert(&mut seen, names[i].clone()) {
            proof {
                let k = choose|k: int| 0 <= k < i && #[trigger] all[k] == all[i as int];
                assert(!good_names(all, (i + 1) as nat));
                assert(is_first_bad(all, i as int));
                assert forall|j: int| is_first_bad(all, j) implies j == i by {
                    lemma_good_prefix(all, j, i as int);
                }
            }
            return Err(BootFlowError::DuplicateName);
        }
        assert(good_names(all, (i + 1) as nat));
        i = i + 1;
    }
    proof {
        assert forall|j: int| !is_first_bad(all, j) by {
            if 0 <= j < all.len() {
                assert(good_names(all, (j + 1) as nat));
            }
        }
    }
    Ok(())
}

proof fn lemma_good_prefix(names: Seq<Seq<char>>, i: int, j: int)
    requires
        is_first_bad(names, i),
        is_first_bad(names, j),
    ensures
        i == j,
{
    if i < j {
        assert(good_names(names, (i + 1) as nat));
    } else if j < i {
        assert(good_names(names, (j + 1) as nat));
    }
}

/// The first text of a sequence that is accepted.
pub open spec fn first_accepted(
    order: Seq<Seq<char>>,
    accepted: spec_fn(Seq<char>) -> bool,
) -> Option<Seq<char>>
    decreases order.len(),
{
    if order.len() == 0 {
        None
    } else if accepted(order[0]) {
        Some(order[0])
    } else {
        first_accepted(order.drop_first(), accepted)
    }
}

/// The number that a variable holds, or else the given one.
pub open spec fn var_number(
    vars: Map<Seq<char>, Seq<char>>,
    name: Seq<char>,
    otherwise: nat,
) -> nat {
    if vars.contains_key(name) {
        match parsed(trimmed(vars[name]), u32::MAX as nat) {
            Some(number) => number,
            None => otherwise,
        }
    } else {
        otherwise
    }
}

fn number_var(env: &BootEnv, name: &str, otherwise: u32) -> (r: u32)
    ensures
        r == var_number(env_vars(*env), name@, otherwise as nat),
{
    match env.get(name) {
        Some(value) => match parse_u32(trim(value.as_str()).as_str()) {
            Some(number) => number,
            None => otherwise,
        },
        None => otherwise,
    }
}

/// Whether GRUB boots a group: it is marked as good and no attempt is under way.
pub open spec fn grub_boots(vars: Map<Seq<char>, Seq<char>>, group: Seq<char>) -> bool {
    var_number(vars, group + "_OK"@, 0) > 0 && var_number(vars, group + "_TRY"@, 1) < 1
}

/// Whether U-Boot boots a group: attempts are left.
pub open spec fn uboot_boots(vars: Map<Seq<char>, Seq<char>>, group: Seq<char>) -> bool {
    var_number(vars, "BOOT_"@ + group + "_LEFT"@, 0) > 0
}

/// The group that GRUB boots: the first configured one of the boot order that it
/// boots at all.
pub open spec fn grub_default(
    order: Seq<Seq<char>>,
    vars: Map<Seq<char>, Seq<char>>,
    configured: Seq<Seq<char>>,
) -> Option<Seq<char>> {
    first_accepted(order, |group: Seq<char>| configured.contains(group) && grub_boots(vars, group))
}

/// The group that U-Boot boots: the first configured one of the boot order that it
/// boots at all.
pub open spec fn uboot_default(
    order: Seq<Seq<char>>,
    vars: Map<Seq<char>, Seq<char>>,
    configured: Seq<Seq<char>>,
) -> Option<Seq<char>> {
    first_accepted(order, |group: Seq<char>| configured.contains(group) && uboot_boots(vars, group))
}

/// Determines the group that GRUB boots.
pub fn grub_default_group(order: &Vec<String>, env: &BootEnv, configured: &Vec<String>) -> (r:
    Option<String>)
    ensures
        opt_view(r) == grub_default(
            views(order@),
            env_vars(*env),
            views(configured@),
        ),
{
    let ghost accepted = |group: Seq<char>|
        views(configured@).contains(group) && grub_boots(env_vars(*env), group);
    let ghost all = views(order@);
    let mut i: usize = 0;
    assert(all.skip(0) =~= all);
    while i < order.len()
        invariant
            i <= order@.len(),
            all == views(order@),
            accepted == (|group: Seq<char>|
                views(configured@).contains(group) && grub_boots(env_vars(*env), group)),
            first_accepted(all, accepted) == first_accepted(all.skip(i as int), accepted),
        decreases order@.len() - i,
    {
        let group = &order[i];
        assert(all.skip(i as int)[0] == group@);
        assert(all.skip(i as int).drop_first() =~= all.skip(i + 1));
        if contains_str(configured, group.as_str()) {
            let ok = number_var(env, concat(group.as_str(), "_OK").as_str(), 0);
            let attempt = number_var(env, concat(group.as_str(), "_TRY").as_str(), 1);
            if ok > 0 && attempt < 1 {
                return Some(group.clone());
            }
        }
        i = i + 1;
    }
    None
}

/// Determines the group that U-Boot boots.
pub fn uboot_default_group(order: &Vec<String>, env: &BootEnv, configured: &Vec<String>) -> (r:
    Option<String>)
    ensures
        opt_view(r) == uboot_default(
            views(order@),
            env_vars(*env),
            views(configured@),
        ),
{
    let ghost accepted = |group: Seq<char>|
        views(configured@).contains(group) && uboot_boots(env_vars(*env), group);
    let ghost all = views(order@);
    let mut i: usize = 0;
    assert(all.skip(0) =~= all);
    while i < order.len()
        invariant
            i <= order@.len(),
            all == views(order@),
            accepted == (|group: Seq<char>|
                views(configured@).contains(group) && uboot_boots(env_vars(*env), group)),
            first_accepted(all, accepted) == first_accepted(all.skip(i as int), accepted),
        decreases order@.len() - i,
    {
        let group = &order[i];
        assert(all.skip(i as int)[0] == group@);
        assert(all.skip(i as int).drop_first() =~= all.skip(i + 1));
        if contains_str(configured, group.as_str()) {
            let name = concat(concat("BOOT_", group.as_str()).as_str(), "_LEFT");
            if number_var(env, name.as_str(), 0) > 0 {
                return Some(group.clone());
            }
        }
        i = i + 1;
    }
    None
}

/// The texts that are not the given one, in order.
pub open spec fn others(order: Seq<Seq<char>>, group: Seq<char>) -> Seq<Seq<char>>
    decreases order.len(),
{
    if order.len() == 0 {
        Seq::empty()
    } else {
        let before = others(order.drop_last(), group);
        if order.last() != group {
            before.push(order.last())
        } else {
            before
        }
    }
}

/// A boot order with the given group first and the others as they were.
pub open spec fn prioritized(order: Seq<char>, group: Seq<char>) -> Seq<char> {
    joined(seq![group] + others(words(order), group), " "@)
}

/// Moves a group to the front of a boot order.
pub fn prioritize_boot_group(boot_order: &str, group: &str) -> (r: String)
    ensures
        r@ == prioritized(boot_order@, group@),
{
    let order = split_whitespace(boot_order);
    let ghost all = words(boot_order@);
    let mut result: Vec<String> = Vec::new();
    result.push(group.to_owned());
    let mut i: usize = 0;
    assert(all.take(0) =~= Seq::empty());
    assert(views(result@) =~= seq![group@] + others(all.take(0), group@));
    assert(all.len() == order@.len());
    while i < order.len()
        invariant
            i <= order@.len(),
            all == views(order@),
            all.len() == order@.len(),
            views(result@) == seq![group@] + others(all.take(i as int), group@),
        decreases order@.len() - i,
    {
        assert(all[i as int] == order@[i as int]@);
        assert(all.take(i + 1).drop_last() =~= all.take(i as int));
        assert(all.take(i + 1).last() == order@[i as int]@);
        if !crate::text::same(order[i].as_str(), group) {
            let ghost before = views(result@);
            result.push(order[i].clone());
            assert(views(result@) =~= before.push(order@[i as int]@));
            assert(before.push(order@[i as int]@) =~= seq![group@] + others(
                all.take(i + 1),
                group@,
            ));
        }
        i = i + 1;
    }
    assert(all.take(i as int) =~= all);
    join(&result, " ")
}

/// The groups of a RAUC-compatible boot flow.
#[derive(Debug)]
struct RaucBootFlow {
    groups: GroupNames,
}

/// Whether every group below `n` has a name, and no two have the same.
pub open spec fn names_groups(names: Map<usize, Seq<char>>, n: nat) -> bool {
    &&& forall|k: usize| #[trigger] names.contains_key(k) <==> k < n
    &&& forall|j: usize, k: usize|
        j < k < n ==> #[trigger] names[j] != #[trigger] names[k]
}

/// Whether no two groups have the same name.
pub open spec fn distinct_names(names: Map<usize, Seq<char>>) -> bool {
    forall|j: usize, k: usize|
        names.contains_key(j) && names.contains_key(k) && j != k ==> #[trigger] names[j]
            != #[trigger] names[k]
}

/// The names that a boot flow uses: the configured ones, or else the names of the
/// boot groups in upper case.
pub open spec fn flow_names(groups: BootGroups, configured: Option<Vec<String>>) -> Seq<Seq<char>> {
    match configured {
        Some(names) => views(names@),
        None => groups.groups@.map_values(
            |group: BootGroup| unicode_upper(group.name@),
        ),
    }
}

/// Why a boot flow over the given groups cannot be set up.
pub open spec fn flow_error(count: nat, names: Seq<Seq<char>>) -> Option<BootFlowError> {
    if count < 2 {
        Some(BootFlowError::TooFewGroups)
    } else if names.len() != count {
        Some(BootFlowError::NameCount)
    } else if good_names(names, count) {
        None
    } else if exists|i: int| #[trigger] is_first_bad(names, i) && trimmed(names[i]).len() == 0 {
        Some(BootFlowError::EmptyName)
    } else {
        Some(BootFlowError::DuplicateName)
    }
}

proof fn lemma_bad_exists(names: Seq<Seq<char>>, n: nat)
    requires
        n <= names.len(),
        !good_names(names, n),
    ensures
        exists|i: int| #[trigger] is_first_bad(names, i),
    decreases n,
{
    assert(n > 0);
    if good_names(names, (n - 1) as nat) {
        assert(is_first_bad(names, n - 1));
    } else {
        lemma_bad_exists(names, (n - 1) as nat);
    }
}

impl RaucBootFlow {
    pub closed spec fn names(self) -> Map<usize, Seq<char>> {
        group_names(self.groups)
    }
}

fn rauc_boot_flow(groups: &BootGroups, configured: &Option<Vec<String>>) -> (r: Result<
    RaucBootFlow,
    BootFlowError,
>)
    ensures
        ({
            let names = flow_names(*groups, *configured);
            match r {
                Ok(flow) => {
                    &&& flow_error(groups.groups@.len(), names) is None
                    &&& names_groups(flow.names(), names.len())
                    &&& forall|k: usize| k < names.len() ==> #[trigger] flow.names()[k] == names[k as int]
                },
                Err(e) => flow_error(groups.groups@.len(), names) == Some(e),
            }
        }),
{
    let count: usize = groups.groups.len();
    if count < 2 {
        return Err(BootFlowError::TooFewGroups);
    }
    let names = match configured {
        Some(names) => clone_strings(names),
        None => {
            let mut names: Vec<String> = Vec::new();
            let mut i: usize = 0;
            while i < groups.groups.len()
                invariant
                    i <= groups.groups@.len(),
                    views(names@) == flow_names(*groups, None).take(i as int),
                decreases groups.groups@.len() - i,
            {
                let ghost before = views(names@);
                names.push(to_upper(groups.groups[i].name.as_str()));
                assert(views(names@) =~= before.push(names@.last()@));
                i = i + 1;
                assert(views(names@) =~= flow_names(*groups, None).take(i as int));
            }
            assert(flow_names(*groups, None).take(i as int) =~= flow_names(*groups, None));
            names
        },
    };
    let ghost all = flow_names(*groups, *configured);
    assert(views(names@) =~= all);
    assert(all.len() == names@.len());
    match validate_group_names(&names, count) {
        Ok(()) => {},
        Err(e) => {
            proof {
                if names@.len() == count {
                    lemma_bad_exists(all, all.len());
                }
            }
            return Err(e);
        },
    }
    let mut table = groups_empty();
    let mut i: usize = 0;
    while i < names.len()
        invariant
            i <= names@.len(),
            all == views(names@),
            all.len() == names@.len(),
            forall|k: usize| #[trigger] group_names(table).contains_key(k) <==> k < i,
            forall|k: usize| k < i ==> #[trigger] group_names(table)[k] == all[k as int],
        decreases names@.len() - i,
    {
        groups_insert(&mut table, i, names[i].clone());
        assert(all[i as int] == names@[i as int]@);
        i = i + 1;
    }
    let flow = RaucBootFlow { groups: table };
    assert forall|j: usize, k: usize| j < k < all.len() implies #[trigger] flow.names()[j]
        != #[trigger] flow.names()[k] by {
        assert(all[j as int] != all[k as int]);
    }
    Ok(flow)
}

/// Whether `group` has the given name.
pub open spec fn group_has_name(
    names: Map<usize, Seq<char>>,
    group: usize,
    name: Seq<char>,
) -> bool {
    names.contains_key(group) && names[group] == name
}

/// The boot order that an environment holds.
pub open spec fn boot_order(vars: Map<Seq<char>, Seq<char>>) -> Seq<Seq<char>> {
    words(trimmed(vars["BOOT_ORDER"@]))
}

/// Whether a text is the name of a group.
pub open spec fn is_group_name(names: Map<usize, Seq<char>>, name: Seq<char>) -> bool {
    exists|group: usize| #[trigger] group_has_name(names, group, name)
}

/// The group that the boot loader boots by default, where it is known: the first
/// one of the boot order that has a name of this flow and can be booted.
pub open spec fn default_name(
    vars: Map<Seq<char>, Seq<char>>,
    names: Map<usize, Seq<char>>,
    boots: spec_fn(Seq<char>) -> bool,
) -> Option<Seq<char>> {
    first_accepted(boot_order(vars), |name: Seq<char>| is_group_name(names, name) && boots(name))
}

impl RaucBootFlow {
    fn configured_names(&self) -> (r: Vec<String>)
        ensures
            forall|name: Seq<char>|
                views(r@).contains(name) <==> #[trigger] is_group_name(self.names(), name),
    {
        let entries = groups_entries(&self.groups);
        let mut r: Vec<String> = Vec::new();
        let mut i: usize = 0;
        while i < entries.len()
            invariant
                i <= entries@.len(),
                r@.len() == i,
                forall|k: int| 0 <= k < i ==> views(r@)[k] == (#[trigger] entries@[k]).1@,
            decreases entries@.len() - i,
        {
            let ghost before = views(r@);
            r.push(entries[i].1.clone());
            assert(views(r@) =~= before.push(entries@[i as int].1@));
            i = i + 1;
        }
        assert forall|name: Seq<char>| views(r@).contains(name) <==> #[trigger] is_group_name(
            self.names(),
            name,
        ) by {
            if views(r@).contains(name) {
                let k = choose|k: int| 0 <= k < views(r@).len() && views(r@)[k] == name;
                assert(views(r@)[k] == entries@[k].1@);
                assert(group_has_name(self.names(), entries@[k].0, name));
            }
            if is_group_name(self.names(), name) {
                let group = choose|group: usize| #[trigger]
                    group_has_name(self.names(), group, name);
                assert(group_names(self.groups).contains_key(group));
                let k = choose|k: int| 0 <= k < entries@.len() && (#[trigger] entries@[k]).0 == group;
                assert(views(r@)[k] == name);
            }
        }
        r
    }

    fn find_group(&self, name: &str) -> (r: Option<usize>)
        ensures
            r matches Some(group) ==> group_has_name(self.names(), group, name@),
            r is None ==> !is_group_name(self.names(), name@),
    {
        let entries = groups_entries(&self.groups);
        let mut i: usize = 0;
        while i < entries.len()
            invariant
                i <= entries@.len(),
                forall|k: int| 0 <= k < i ==> (#[trigger] entries@[k]).1@ != name@,
                forall|k: int|
                    0 <= k < entries@.len() ==> group_names(self.groups).contains_key(
                        (#[trigger] entries@[k]).0,
                    ) && group_names(self.groups)[entries@[k].0] == entries@[k].1@,
            decreases entries@.len() - i,
        {
            if crate::text::same(entries[i].1.as_str(), name) {
                return Some(entries[i].0);
            }
            i = i + 1;
        }
        assert(!is_group_name(self.names(), name@)) by {
            if is_group_name(self.names(), name@) {
                let group = choose|group: usize| #[trigger]
                    group_has_name(self.names(), group, name@);
                assert(group_names(self.groups).contains_key(group));
                let k = choose|k: int| 0 <= k < entries@.len() && (#[trigger] entries@[k]).0 == group;
                assert(entries@[k].1@ == name@);
            }
        }
        None
    }

    fn default_order(env: &BootEnv) -> (r: Result<Vec<String>, BootFlowError>)
        ensures
            r is Ok == env_vars(*env).contains_key("BOOT_ORDER"@),
            r matches Ok(order) ==> views(order@) == boot_order(env_vars(*env)),
            r matches Err(e) ==> e == BootFlowError::UnknownBootOrder,
    {
        match env.get("BOOT_ORDER") {
            Some(order) => Ok(split_whitespace(trim(order.as_str()).as_str())),
            None => Err(BootFlowError::UnknownBootOrder),
        }
    }

    fn resolve_default(&self, name: Option<String>) -> (r: Result<usize, BootFlowError>)
        ensures
            match r {
                Ok(group) => name is Some && group_has_name(self.names(), group, name->0@),
                Err(e) => e == BootFlowError::UnknownDefault && (name is None || !is_group_name(
                    self.names(),
                    name->0@,
                )),
            },
    {
        match name {
            Some(name) => match self.find_group(name.as_str()) {
                Some(group) => Ok(group),
                None => Err(BootFlowError::UnknownDefault),
            },
            None => Err(BootFlowError::UnknownDefault),
        }
    }
}

proof fn lemma_names_distinct(names: Map<usize, Seq<char>>, n: nat)
    requires
        names_groups(names, n),
    ensures
        distinct_names(names),
{
    assert forall|j: usize, k: usize|
        names.contains_key(j) && names.contains_key(k) && j != k implies #[trigger] names[j]
        != #[trigger] names[k] by {
        if j < k {
            assert(names[j] != names[k]);
        } else {
            assert(names[k] != names[j]);
        }
    }
}

proof fn lemma_accepted_agree(
    order: Seq<Seq<char>>,
    a: spec_fn(Seq<char>) -> bool,
    b: spec_fn(Seq<char>) -> bool,
)
    requires
        forall|s: Seq<char>| #[trigger] a(s) == b(s),
    ensures
        first_accepted(order, a) == first_accepted(order, b),
    decreases order.len(),
{
    if order.len() > 0 {
        assert(a(order[0]) == b(order[0]));
        lemma_accepted_agree(order.drop_first(), a, b);
    }
}

proof fn lemma_accepted_is_accepted(order: Seq<Seq<char>>, a: spec_fn(Seq<char>) -> bool)
    ensures
        first_accepted(order, a) matches Some(s) ==> a(s) && order.contains(s),
    decreases order.len(),
{
    if order.len() > 0 {
        lemma_accepted_is_accepted(order.drop_first(), a);
        if a(order[0]) {
            assert(order.contains(order[0]));
        } else if let Some(s) = first_accepted(order, a) {
            let k = choose|k: int|
                0 <= k < order.drop_first().len() && order.drop_first()[k] == s;
            assert(order[k + 1] == s);
        }
    }
}

/// RAUC-compatible boot flow for U-Boot.
#[derive(Debug)]
pub struct RaucUboot {
    inner: RaucBootFlow,
}

/// RAUC-compatible boot flow for GRUB.
#[derive(Debug)]
pub struct RaucGrub {
    inner: RaucBootFlow,
}

/// Whether `r` names the default group of a flow.
pub open spec fn is_default(
    r: Result<usize, BootFlowError>,
    vars: Map<Seq<char>, Seq<char>>,
    names: Map<usize, Seq<char>>,
    boots: spec_fn(Seq<char>) -> bool,
) -> bool {
    if !vars.contains_key("BOOT_ORDER"@) {
        r == Err::<usize, BootFlowError>(BootFlowError::UnknownBootOrder)
    } else {
        match default_name(vars, names, boots) {
            Some(name) => r matches Ok(group) && group_has_name(names, group, name),
            None => r == Err::<usize, BootFlowError>(BootFlowError::UnknownDefault),
        }
    }
}

/// Whether the default group of a flow is known.
pub open spec fn has_default(
    vars: Map<Seq<char>, Seq<char>>,
    names: Map<usize, Seq<char>>,
    boots: spec_fn(Seq<char>) -> bool,
) -> bool {
    vars.contains_key("BOOT_ORDER"@) && default_name(vars, names, boots) is Some
}

/// The variables that leave U-Boot `left` attempts for a group.
pub open spec fn uboot_left(name: Seq<char>, left: Seq<char>) -> Map<Seq<char>, Seq<char>> {
    Map::empty().insert("BOOT_"@ + name + "_LEFT"@, left)
}

/// The variables that tell GRUB whether a group is good.
pub open spec fn grub_flags(name: Seq<char>, ok: Seq<char>) -> Map<Seq<char>, Seq<char>> {
    Map::empty().insert(name + "_OK"@, ok).insert(name + "_TRY"@, "0"@)
}

/// The variables that also move a group to the front of the boot order.
pub open spec fn with_priority(
    update: Map<Seq<char>, Seq<char>>,
    vars: Map<Seq<char>, Seq<char>>,
    name: Seq<char>,
) -> Map<Seq<char>, Seq<char>> {
    update.insert("BOOT_ORDER"@, prioritized(trimmed(vars["BOOT_ORDER"@]), name))
}

fn uboot_update(name: &str, left: &str) -> (r: BootEnv)
    ensures
        env_vars(r) == uboot_left(name@, left@),
{
    let mut env = BootEnv::new();
    env.set(concat(concat("BOOT_", name).as_str(), "_LEFT"), left.to_owned());
    env
}

fn grub_update(name: &str, ok: &str) -> (r: BootEnv)
    ensures
        env_vars(r) == grub_flags(name@, ok@),
{
    let mut env = BootEnv::new();
    env.set(concat(name, "_OK"), ok.to_owned());
    env.set(concat(name, "_TRY"), "0".to_owned());
    env
}

fn prioritize(update: BootEnv, env: &BootEnv, name: &str) -> (r: Result<BootEnv, BootFlowError>)
    ensures
        r is Ok == env_vars(*env).contains_key("BOOT_ORDER"@),
        r matches Ok(u) ==> env_vars(u) == with_priority(env_vars(update), env_vars(*env), name@),
        r matches Err(e) ==> e == BootFlowError::UnknownBootOrder,
{
    match env.get("BOOT_ORDER") {
        Some(order) => {
            let mut result = update;
            let order = prioritize_boot_group(trim(order.as_str()).as_str(), name);
            result.set("BOOT_ORDER".to_owned(), order);
            Ok(result)
        },
        None => Err(BootFlowError::UnknownBootOrder),
    }
}

impl RaucUboot {
    #[verifier::type_invariant]
    spec fn distinct(self) -> bool {
        distinct_names(self.inner.names())
    }

    /// The names of the groups.
    pub closed spec fn names(self) -> Map<usize, Seq<char>> {
        self.inner.names()
    }

    /// Sets up the flow. The groups are named as configured, or else by the names of
    /// the boot groups in upper case.
    pub fn new(groups: &BootGroups, configured: &Option<Vec<String>>) -> (r: Result<
        Self,
        BootFlowError,
    >)
        ensures
            ({
                let names = flow_names(*groups, *configured);
                match r {
                    Ok(flow) => {
                        &&& flow_error(groups.groups@.len(), names) is None
                        &&& names_groups(flow.names(), names.len())
                        &&& forall|k: usize|
                            k < names.len() ==> #[trigger] flow.names()[k] == names[k as int]
                    },
                    Err(e) => flow_error(groups.groups@.len(), names) == Some(e),
                }
            }),
    {
        match rauc_boot_flow(groups, configured) {
            Ok(inner) => {
                proof {
                    lemma_names_distinct(
                        inner.names(),
                        flow_names(*groups, *configured).len(),
                    );
                }
                let flow = RaucUboot { inner };
                assert forall|k: usize|
                    k < flow_names(*groups, *configured).len() implies #[trigger] flow.names()[k]
                    == flow_names(*groups, *configured)[k as int] by {
                    assert(flow.names()[k] == inner.names()[k]);
                }
                Ok(flow)
            },
            Err(e) => Err(e),
        }
    }

    /// Name of the boot flow.
    pub fn name(&self) -> (r: &str)
        ensures
            r@ == "rauc-uboot"@,
    {
        "rauc-uboot"
    }

    /// What the flow can do: it recovers from failures in userspace.
    pub fn capabilities(&self) -> (r: BootFlowCapabilities)
        ensures
            r == (BootFlowCapabilities { userspace_failure_recovery: Some(true) }),
    {
        BootFlowCapabilities { userspace_failure_recovery: Some(true) }
    }

    /// The default boot group, from the environment of the boot loader.
    pub fn get_default(&self, env: &BootEnv) -> (r: Result<usize, BootFlowError>)
        ensures
            is_default(
                r,
                env_vars(*env),
                self.names(),
                |name: Seq<char>| uboot_boots(env_vars(*env), name),
            ),
    {
        let order = match RaucBootFlow::default_order(env) {
            Ok(order) => order,
            Err(e) => return Err(e),
        };
        let configured = self.inner.configured_names();
        let name = uboot_default_group(&order, env, &configured);
        let ghost boots = |name: Seq<char>| uboot_boots(env_vars(*env), name);
        proof {
            let a = |group: Seq<char>|
                views(configured@).contains(group) && uboot_boots(env_vars(*env), group);
            let b = |name: Seq<char>| is_group_name(self.names(), name) && boots(name);
            assert forall|s: Seq<char>| #[trigger] a(s) == b(s) by {
                assert(is_group_name(self.inner.names(), s) == views(configured@).contains(s));
            }
            lemma_accepted_agree(views(order@), a, b);
            lemma_accepted_is_accepted(views(order@), b);
        }
        self.inner.resolve_default(name)
    }

    /// The variables to set so that the group is tried next: none where it is the
    /// default already.
    pub fn set_try_next(&self, env: &BootEnv, group: usize) -> (r: Result<
        Option<BootEnv>,
        BootFlowError,
    >)
        ensures
            ({
                let boots = |name: Seq<char>| uboot_boots(env_vars(*env), name);
                let known = has_default(env_vars(*env), self.names(), boots);
                match r {
                    Ok(None) => known,
                    Ok(Some(update)) => known && self.names().contains_key(group) && env_vars(
                        update,
                    ) == with_priority(
                        uboot_left(self.names()[group], "1"@),
                        env_vars(*env),
                        self.names()[group],
                    ),
                    Err(e) => if known {
                        e == BootFlowError::InvalidGroup && !self.names().contains_key(group)
                    } else {
                        is_default(Err(e), env_vars(*env), self.names(), boots)
                    },
                }
            }),
            r matches Ok(None) <==> is_default(
                Ok(group),
                env_vars(*env),
                self.names(),
                |name: Seq<char>| uboot_boots(env_vars(*env), name),
            ),
    {
        let default = match self.get_default(env) {
            Ok(default) => default,
            Err(e) => return Err(e),
        };
        if group == default {
            return Ok(None);
        }
        proof {
            use_type_invariant(self);
            let boots = |name: Seq<char>| uboot_boots(env_vars(*env), name);
            if is_default(Ok(group), env_vars(*env), self.names(), boots) {
                assert(self.inner.names()[group] != self.inner.names()[default]);
            }
        }
        let name = match groups_get(&self.inner.groups, group) {
            Some(name) => name,
            None => return Err(BootFlowError::InvalidGroup),
        };
        match prioritize(uboot_update(name.as_str(), "1"), env, name.as_str()) {
            Ok(update) => Ok(Some(update)),
            Err(e) => Err(e),
        }
    }

    /// The variables to set so that the active group becomes the default.
    pub fn commit(&self, env: &BootEnv, active: Option<usize>) -> (r: Result<
        BootEnv,
        BootFlowError,
    >)
        ensures
            r is Ok == (active is Some && self.names().contains_key(active->0) && env_vars(
                *env,
            ).contains_key("BOOT_ORDER"@)),
            r matches Ok(update) ==> env_vars(update) == with_priority(
                uboot_left(self.names()[active->0], "3"@),
                env_vars(*env),
                self.names()[active->0],
            ),
            r matches Err(e) ==> e == if active is None {
                BootFlowError::UnknownActiveGroup
            } else if !self.names().contains_key(active->0) {
                BootFlowError::InvalidGroup
            } else {
                BootFlowError::UnknownBootOrder
            },
    {
        let group: usize = match active {
            Some(group) => group,
            None => return Err(BootFlowError::UnknownActiveGroup),
        };
        let name = match groups_get(&self.inner.groups, group) {
            Some(name) => name,
            None => return Err(BootFlowError::InvalidGroup),
        };
        prioritize(uboot_update(name.as_str(), "3"), env, name.as_str())
    }

    /// The variables to set so that the group is good.
    pub fn mark_good(&self, group: usize) -> (r: Result<BootEnv, BootFlowError>)
        ensures
            r is Ok == self.names().contains_key(group),
            r matches Ok(update) ==> env_vars(update) == uboot_left(self.names()[group], "3"@),
            r matches Err(e) ==> e == BootFlowError::InvalidGroup,
    {
        match groups_get(&self.inner.groups, group) {
            Some(name) => Ok(uboot_update(name.as_str(), "3")),
            None => Err(BootFlowError::InvalidGroup),
        }
    }

    /// The variables to set so that the group is bad. The active one cannot be.
    pub fn mark_bad(&self, active: Option<usize>, group: usize) -> (r: Result<
        BootEnv,
        BootFlowError,
    >)
        ensures
            r is Ok == (active is Some && active->0 != group && self.names().contains_key(group)),
            r matches Ok(update) ==> env_vars(update) == uboot_left(self.names()[group], "0"@),
            r matches Err(e) ==> e == if active is None {
                BootFlowError::UnknownActiveGroup
            } else if active->0 == group {
                BootFlowError::ActiveGroup
            } else {
                BootFlowError::InvalidGroup
            },
    {
        match active {
            Some(active) => if active == group {
                return Err(BootFlowError::ActiveGroup);
            },
            None => return Err(BootFlowError::UnknownActiveGroup),
        }
        match groups_get(&self.inner.groups, group) {
            Some(name) => Ok(uboot_update(name.as_str(), "0")),
            None => Err(BootFlowError::InvalidGroup),
        }
    }
}

impl RaucGrub {
    #[verifier::type_invariant]
    spec fn distinct(self) -> bool {
        distinct_names(self.inner.names())
    }

    /// The names of the groups.
    pub closed spec fn names(self) -> Map<usize, Seq<char>> {
        self.inner.names()
    }

    /// Sets up the flow. The groups are named as configured, or else by the names of
    /// the boot groups in upper case.
    pub fn new(groups: &BootGroups, configured: &Option<Vec<String>>) -> (r: Result<
        Self,
        BootFlowError,
    >)
        ensures
            ({
                let names = flow_names(*groups, *configured);
                match r {
                    Ok(flow) => {
                        &&& flow_error(groups.groups@.len(), names) is None
                        &&& names_groups(flow.names(), names.len())
                        &&& forall|k: usize|
                            k < names.len() ==> #[trigger] flow.names()[k] == names[k as int]
                    },
                    Err(e) => flow_error(groups.groups@.len(), names) == Some(e),
                }
            }),
    {
        match rauc_boot_flow(groups, configured) {
            Ok(inner) => {
                proof {
                    lemma_names_distinct(
                        inner.names(),
                        flow_names(*groups, *configured).len(),
                    );
                }
                let flow = RaucGrub { inner };
                assert forall|k: usize|
                    k < flow_names(*groups, *configured).len() implies #[trigger] flow.names()[k]
                    == flow_names(*groups, *configured)[k as int] by {
                    assert(flow.names()[k] == inner.names()[k]);
                }
                Ok(flow)
            },
            Err(e) => Err(e),
        }
    }

    /// Name of the boot flow.
    pub fn name(&self) -> (r: &str)
        ensures
            r@ == "rauc-grub"@,
    {
        "rauc-grub"
    }

    /// What the flow can do: it recovers from failures in userspace.
    pub fn capabilities(&self) -> (r: BootFlowCapabilities)
        ensures
            r == (BootFlowCapabilities { userspace_failure_recovery: Some(true) }),
    {
        BootFlowCapabilities { userspace_failure_recovery: Some(true) }
    }

    /// The default boot group, from the environment of the boot loader.
    pub fn get_default(&self, env: &BootEnv) -> (r: Result<usize, BootFlowError>)
        ensures
            is_default(
                r,
                env_vars(*env),
                self.names(),
                |name: Seq<char>| grub_boots(env_vars(*env), name),
            ),
    {
        let order = match RaucBootFlow::default_order(env) {
            Ok(order) => order,
            Err(e) => return Err(e),
        };
        let configured = self.inner.configured_names();
        let name = grub_default_group(&order, env, &configured);
        let ghost boots = |name: Seq<char>| grub_boots(env_vars(*env), name);
        proof {
            let a = |group: Seq<char>|
                views(configured@).contains(group) && grub_boots(env_vars(*env), group);
            let b = |name: Seq<char>| is_group_name(self.names(), name) && boots(name);
            assert forall|s: Seq<char>| #[trigger] a(s) == b(s) by {
                assert(is_group_name(self.inner.names(), s) == views(configured@).contains(s));
            }
            lemma_accepted_agree(views(order@), a, b);
            lemma_accepted_is_accepted(views(order@), b);
        }
        self.inner.resolve_default(name)
    }

    /// The variables to set so that the group is tried next: none where it is the
    /// default already.
    pub fn set_try_next(&self, env: &BootEnv, group: usize) -> (r: Result<
        Option<BootEnv>,
        BootFlowError,
    >)
        ensures
            ({
                let boots = |name: Seq<char>| grub_boots(env_vars(*env), name);
                let known = has_default(env_vars(*env), self.names(), boots);
                match r {
                    Ok(None) => known,
                    Ok(Some(update)) => known && self.names().contains_key(group) && env_vars(
                        update,
                    ) == with_priority(
                        grub_flags(self.names()[group], "1"@),
                        env_vars(*env),
                        self.names()[group],
                    ),
                    Err(e) => if known {
                        e == BootFlowError::InvalidGroup && !self.names().contains_key(group)
                    } else {
                        is_default(Err(e), env_vars(*env), self.names(), boots)
                    },
                }
            }),
            r matches Ok(None) <==> is_default(
                Ok(group),
                env_vars(*env),
                self.names(),
                |name: Seq<char>| grub_boots(env_vars(*env), name),
            ),
    {
        let default = match self.get_default(env) {
            Ok(default) => default,
            Err(e) => return Err(e),
        };
        if group == default {
            return Ok(None);
        }
        proof {
            use_type_invariant(self);
            let boots = |name: Seq<char>| grub_boots(env_vars(*env), name);
            if is_default(Ok(group), env_vars(*env), self.names(), boots) {
                assert(self.inner.names()[group] != self.inner.names()[default]);
            }
        }
        let name = match groups_get(&self.inner.groups, group) {
            Some(name) => name,
            None => return Err(BootFlowError::InvalidGroup),
        };
        match prioritize(grub_update(name.as_str(), "1"), env, name.as_str()) {
            Ok(update) => Ok(Some(update)),
            Err(e) => Err(e),
        }
    }

    /// The variables to set so that the active group becomes the default.
    pub fn commit(&self, env: &BootEnv, active: Option<usize>) -> (r: Result<
        BootEnv,
        BootFlowError,
    >)
        ensures
            r is Ok == (active is Some && self.names().contains_key(active->0) && env_vars(
                *env,
            ).contains_key("BOOT_ORDER"@)),
            r matches Ok(update) ==> env_vars(update) == with_priority(
                grub_flags(self.names()[active->0], "1"@),
                env_vars(*env),
                self.names()[active->0],
            ),
            r matches Err(e) ==> e == if active is None {
                BootFlowError::UnknownActiveGroup
            } else if !self.names().contains_key(active->0) {
                BootFlowError::InvalidGroup
            } else {
                BootFlowError::UnknownBootOrder
            },
    {
        let group: usize = match active {
            Some(group) => group,
            None => return Err(BootFlowError::UnknownActiveGroup),
        };
        let name = match groups_get(&self.inner.groups, group) {
            Some(name) => name,
            None => return Err(BootFlowError::InvalidGroup),
        };
        prioritize(grub_update(name.as_str(), "1"), env, name.as_str())
    }

    /// The variables to set so that the group is good.
    pub fn mark_good(&self, group: usize) -> (r: Result<BootEnv, BootFlowError>)
        ensures
            r is Ok == self.names().contains_key(group),
            r matches Ok(update) ==> env_vars(update) == grub_flags(self.names()[group], "1"@),
            r matches Err(e) ==> e == BootFlowError::InvalidGroup,
    {
        match groups_get(&self.inner.groups, group) {
            Some(name) => Ok(grub_update(name.as_str(), "1")),
            None => Err(BootFlowError::InvalidGroup),
        }
    }

    /// The variables to set so that the group is bad. The active one cannot be.
    pub fn mark_bad(&self, active: Option<usize>, group: usize) -> (r: Result<
        BootEnv,
        BootFlowError,
    >)
        ensures
            r is Ok == (active is Some && active->0 != group && self.names().contains_key(group)),
            r matches Ok(update) ==> env_vars(update) == grub_flags(self.names()[group], "0"@),
            r matches Err(e) ==> e == if active is None {
                BootFlowError::UnknownActiveGroup
            } else if active->0 == group {
                BootFlowError::ActiveGroup
            } else {
                BootFlowError::InvalidGroup
            },
    {
        match active {
            Some(active) => if active == group {
                return Err(BootFlowError::ActiveGroup);
            },
            None => return Err(BootFlowError::UnknownActiveGroup),
        }
        match groups_get(&self.inner.groups, group) {
            Some(name) => Ok(grub_update(name.as_str(), "0")),
            None => Err(BootFlowError::InvalidGroup),
        }
    }
}

/// Whether a text is one word: not empty and without white space.
pub open spec fn is_word(s: Seq<char>) -> bool {
    s.len() > 0 && forall|i: int| 0 <= i < s.len() ==> !is_white(#[trigger] s[i])
}

proof fn lemma_words_append(s: Seq<char>, w: Seq<char>)
    requires
        is_word(w),
        s.len() == 0 || is_white(s.last()),
    ensures
        words(s + w) == words(s).push(w),
    decreases w.len(),
{
    let c = w.last();
    let before = (s + w).drop_last();
    assert(before =~= s + w.drop_last());
    assert((s + w).last() == c);
    assert(!is_white(c));
    if w.len() == 1 {
        assert(before =~= s);
        assert(seq![c] =~= w);
    } else {
        assert(is_word(w.drop_last())) by {
            assert forall|i: int| 0 <= i < w.drop_last().len() implies !is_white(
                #[trigger] w.drop_last()[i],
            ) by {
                assert(w.drop_last()[i] == w[i]);
            }
        }
        lemma_words_append(s, w.drop_last());
        assert(before.last() == w[w.len() - 2]);
        assert(words(before).drop_last() =~= words(s));
        assert(w.drop_last().push(c) =~= w);
    }
}

proof fn lemma_words_joined(parts: Seq<Seq<char>>)
    requires
        forall|i: int| 0 <= i < parts.len() ==> is_word(#[trigger] parts[i]),
    ensures
        words(joined(parts, " "@)) == parts,
    decreases parts.len(),
{
    reveal_strlit(" ");
    if parts.len() == 0 {
        assert(parts =~= Seq::empty());
    } else if parts.len() == 1 {
        lemma_words_append(Seq::empty(), parts[0]);
        assert(Seq::<char>::empty() + parts[0] =~= parts[0]);
        assert(parts =~= words(Seq::empty()).push(parts[0]));
    } else {
        let rest = parts.drop_last();
        assert forall|i: int| 0 <= i < rest.len() implies is_word(#[trigger] rest[i]) by {
            assert(rest[i] == parts[i]);
        }
        lemma_words_joined(rest);
        let s = joined(rest, " "@) + " "@;
        assert(s.drop_last() =~= joined(rest, " "@));
        assert(s.last() == ' ');
        lemma_words_append(s, parts.last());
        assert(rest.push(parts.last()) =~= parts);
    }
}

proof fn lemma_words_are_words(s: Seq<char>)
    ensures
        forall|i: int| 0 <= i < words(s).len() ==> is_word(#[trigger] words(s)[i]),
        s.len() > 0 && !is_white(s.last()) ==> words(s).len() > 0,
    decreases s.len(),
{
    if s.len() > 0 {
        let before = s.drop_last();
        lemma_words_are_words(before);
        assert forall|i: int| 0 <= i < words(s).len() implies is_word(#[trigger] words(s)[i]) by {
            if is_white(s.last()) {
            } else if before.len() == 0 || is_white(before.last()) {
                if i < words(before).len() {
                    assert(words(s)[i] == words(before)[i]);
                } else {
                    assert(words(s)[i] =~= seq![s.last()]);
                }
            } else {
                if i < words(before).len() - 1 {
                    assert(words(s)[i] == words(before)[i]);
                } else {
                    let w = words(before).last();
                    assert(is_word(w));
                    assert(words(s)[i] == w.push(s.last()));
                    assert forall|k: int| 0 <= k < words(s)[i].len() implies !is_white(
                        #[trigger] words(s)[i][k],
                    ) by {
                        if k < w.len() {
                            assert(words(s)[i][k] == w[k]);
                        }
                    }
                }
            }
        }
    }
}

proof fn lemma_others(order: Seq<Seq<char>>, group: Seq<char>)
    ensures
        forall|i: int| 0 <= i < others(order, group).len() ==> #[trigger] others(order, group)[i] != group,
        forall|i: int|
            0 <= i < others(order, group).len() ==> order.contains(#[trigger] others(order, group)[i]),
        !order.contains(group) ==> others(order, group) == order,
    decreases order.len(),
{
    if order.len() > 0 {
        let before = order.drop_last();
        lemma_others(before, group);
        assert forall|i: int| 0 <= i < others(order, group).len() implies #[trigger] others(
            order,
            group,
        )[i] != group && order.contains(others(order, group)[i]) by {
            if i < others(before, group).len() {
                assert(others(order, group)[i] == others(before, group)[i]);
                let k = choose|k: int| 0 <= k < before.len() && before[k] == others(before, group)[i];
                assert(order[k] == others(before, group)[i]);
            } else {
                assert(order[order.len() - 1] == order.last());
            }
        }
        if !order.contains(group) {
            assert(!before.contains(group)) by {
                if before.contains(group) {
                    let k = choose|k: int| 0 <= k < before.len() && before[k] == group;
                    assert(order[k] == group);
                }
            }
            assert(order[order.len() - 1] != group);
            assert(before.push(order.last()) =~= order);
        }
    } else {
        assert(others(order, group) =~= order);
    }
}

/// A prioritized boot order names the group once, at its front; the other groups
/// follow, all of them and as they were.
pub proof fn law_prioritized_once(order: Seq<char>, group: Seq<char>)
    requires
        is_word(group),
    ensures
        words(prioritized(order, group)) == seq![group] + others(words(order), group),
        forall|i: int|
            0 < i < words(prioritized(order, group)).len() ==> #[trigger] words(
                prioritized(order, group),
            )[i] != group,
        !words(order).contains(group) ==> words(prioritized(order, group)) == seq![group] + words(
            order,
        ),
{
    lemma_words_are_words(order);
    lemma_others(words(order), group);
    let parts = seq![group] + others(words(order), group);
    assert forall|i: int| 0 <= i < parts.len() implies is_word(#[trigger] parts[i]) by {
        if i > 0 {
            let other = others(words(order), group)[i - 1];
            let k = choose|k: int| 0 <= k < words(order).len() && words(order)[k] == other;
            assert(is_word(words(order)[k]));
        }
    }
    lemma_words_joined(parts);
    assert forall|i: int| 0 < i < parts.len() implies parts[i] != group by {
        assert(parts[i] == others(words(order), group)[i - 1]);
    }
}

/// Prioritizing a group again changes nothing.
pub proof fn law_prioritizing_is_idempotent(order: Seq<char>, group: Seq<char>)
    requires
        is_word(group),
    ensures
        prioritized(prioritized(order, group), group) == prioritized(order, group),
{
    law_prioritized_once(order, group);
    let rest = others(words(order), group);
    let all = seq![group] + rest;
    lemma_others(words(order), group);
    lemma_others_after_front(rest, group);
    assert(others(all, group) == others(rest, group));
    assert(!rest.contains(group));
    lemma_others(rest, group);
}

proof fn lemma_others_after_front(rest: Seq<Seq<char>>, group: Seq<char>)
    ensures
        others(seq![group] + rest, group) == others(rest, group),
    decreases rest.len(),
{
    let all = seq![group] + rest;
    if rest.len() == 0 {
        assert(all.drop_last() =~= rest);
        assert(all.last() == group);
    } else {
        assert(all.last() == rest.last());
        lemma_others_after_front(rest.drop_last(), group);
        assert(all.drop_last() =~= seq![group] + rest.drop_last());
    }
}

proof fn lemma_words_skip_white(s: Seq<char>)
    requires
        s.len() > 0,
        is_white(s[0]),
    ensures
        words(s) == words(s.drop_first()),
    decreases s.len(),
{
    if s.len() == 1 {
        assert(s.drop_last() =~= Seq::empty());
        assert(s.drop_first() =~= Seq::empty());
    } else {
        lemma_words_skip_white(s.drop_last());
        assert(s.drop_last().drop_first() =~= s.drop_first().drop_last());
    }
}

proof fn lemma_words_trimmed(s: Seq<char>)
    ensures
        words(trimmed(s)) == words(s),
{
    lemma_words_trim_start(s);
    lemma_words_trim_end(trim_start(s));
}

proof fn lemma_words_trim_start(s: Seq<char>)
    ensures
        words(trim_start(s)) == words(s),
    decreases s.len(),
{
    if s.len() > 0 && is_white(s[0]) {
        lemma_words_skip_white(s);
        lemma_words_trim_start(s.drop_first());
    }
}

proof fn lemma_words_trim_end(s: Seq<char>)
    ensures
        words(trim_end(s)) == words(s),
    decreases s.len(),
{
    if s.len() > 0 && is_white(s.last()) {
        lemma_words_trim_end(s.drop_last());
    }
}

proof fn lemma_small_numbers()
    ensures
        parsed(trimmed("0"@), u32::MAX as nat) == Some(0nat),
        parsed(trimmed("1"@), u32::MAX as nat) == Some(1nat),
        parsed(trimmed("3"@), u32::MAX as nat) == Some(3nat),
{
    reveal_strlit("0");
    reveal_strlit("1");
    reveal_strlit("3");
    assert(trimmed("0"@) =~= seq!['0']);
    assert(trimmed("1"@) =~= seq!['1']);
    assert(trimmed("3"@) =~= seq!['3']);
    reveal_with_fuel(digits_value, 3);
    assert(seq!['0'].drop_last() =~= Seq::empty());
    assert(seq!['1'].drop_last() =~= Seq::empty());
    assert(seq!['3'].drop_last() =~= Seq::empty());
}

/// The variables after an update.
pub open spec fn updated(
    vars: Map<Seq<char>, Seq<char>>,
    update: Map<Seq<char>, Seq<char>>,
) -> Map<Seq<char>, Seq<char>> {
    vars.union_prefer_right(update)
}

proof fn lemma_front_is_default(
    vars: Map<Seq<char>, Seq<char>>,
    names: Map<usize, Seq<char>>,
    boots: spec_fn(Seq<char>) -> bool,
    order: Seq<char>,
    group: usize,
)
    requires
        names.contains_key(group),
        is_word(names[group]),
        vars["BOOT_ORDER"@] == prioritized(order, names[group]),
        boots(names[group]),
    ensures
        default_name(vars, names, boots) == Some(names[group]),
{
    let name = names[group];
    law_prioritized_once(order, name);
    lemma_words_trimmed(prioritized(order, name));
    assert(boot_order(vars)[0] == name);
    assert(group_has_name(names, group, name));
}

/// What U-Boot is told to try next, or is told to keep, is what it boots: with the
/// variables of `set_try_next` or of `commit` the group is the default.
pub proof fn law_uboot_boots_the_selected_group(
    vars: Map<Seq<char>, Seq<char>>,
    names: Map<usize, Seq<char>>,
    group: usize,
    left: Seq<char>,
)
    requires
        names.contains_key(group),
        is_word(names[group]),
        left == "1"@ || left == "3"@,
    ensures
        ({
            let after = updated(
                vars,
                with_priority(uboot_left(names[group], left), vars, names[group]),
            );
            default_name(after, names, |name: Seq<char>| uboot_boots(after, name)) == Some(
                names[group],
            )
        }),
{
    let name = names[group];
    let after = updated(vars, with_priority(uboot_left(name, left), vars, name));
    let key = "BOOT_"@ + name + "_LEFT"@;
    reveal_strlit("BOOT_ORDER");
    reveal_strlit("_LEFT");
    assert(key.last() == 'T');
    assert("BOOT_ORDER"@.last() == 'R');
    assert(after[key] == left);
    lemma_small_numbers();
    lemma_front_is_default(
        after,
        names,
        |name: Seq<char>| uboot_boots(after, name),
        trimmed(vars["BOOT_ORDER"@]),
        group,
    );
}

/// What GRUB is told to try next, or is told to keep, is what it boots: with the
/// variables of `set_try_next` or of `commit` the group is the default.
pub proof fn law_grub_boots_the_selected_group(
    vars: Map<Seq<char>, Seq<char>>,
    names: Map<usize, Seq<char>>,
    group: usize,
)
    requires
        names.contains_key(group),
        is_word(names[group]),
    ensures
        ({
            let after = updated(
                vars,
                with_priority(grub_flags(names[group], "1"@), vars, names[group]),
            );
            default_name(after, names, |name: Seq<char>| grub_boots(after, name)) == Some(
                names[group],
            )
        }),
{
    let name = names[group];
    let after = updated(vars, with_priority(grub_flags(name, "1"@), vars, name));
    let ok = name + "_OK"@;
    let attempt = name + "_TRY"@;
    reveal_strlit("BOOT_ORDER");
    reveal_strlit("_OK");
    reveal_strlit("_TRY");
    assert(ok.last() == 'K');
    assert(attempt.last() == 'Y');
    assert("BOOT_ORDER"@.last() == 'R');
    assert(after[ok] == "1"@);
    assert(after[attempt] == "0"@);
    lemma_small_numbers();
    lemma_front_is_default(
        after,
        names,
        |name: Seq<char>| grub_boots(after, name),
        trimmed(vars["BOOT_ORDER"@]),
        group,
    );
}

/// A group that is marked as bad is not booted.
pub proof fn law_bad_group_is_not_booted(vars: Map<Seq<char>, Seq<char>>, name: Seq<char>)
    ensures
        !uboot_boots(updated(vars, uboot_left(name, "0"@)), name),
        !grub_boots(updated(vars, grub_flags(name, "0"@)), name),
{
    lemma_small_numbers();
    let ok = name + "_OK"@;
    let attempt = name + "_TRY"@;
    reveal_strlit("_OK");
    reveal_strlit("_TRY");
    assert(ok.last() == 'K');
    assert(attempt.last() == 'Y');
    assert(updated(vars, grub_flags(name, "0"@))[ok] == "0"@);
    assert(updated(vars, uboot_left(name, "0"@))["BOOT_"@ + name + "_LEFT"@] == "0"@);
}

/// Whether the boot loader boots what the boot order names at a position.
pub open spec fn is_bootable(
    vars: Map<Seq<char>, Seq<char>>,
    names: Map<usize, Seq<char>>,
    boots: spec_fn(Seq<char>) -> bool,
    i: int,
) -> bool {
    let order = words(vars["BOOT_ORDER"@]);
    0 <= i < order.len() && is_group_name(names, order[i]) && boots(order[i])
}

proof fn lemma_first_accepted(order: Seq<Seq<char>>, accepted: spec_fn(Seq<char>) -> bool)
    ensures
        match first_accepted(order, accepted) {
            Some(name) => exists|i: int|
                0 <= i < order.len() && #[trigger] order[i] == name && accepted(name) && forall|k: int|
                    0 <= k < i ==> !accepted(#[trigger] order[k]),
            None => forall|k: int| 0 <= k < order.len() ==> !accepted(#[trigger] order[k]),
        },
    decreases order.len(),
{
    if order.len() > 0 {
        let rest = order.drop_first();
        lemma_first_accepted(rest, accepted);
        if accepted(order[0]) {
            assert(order[0] == order[0]);
        } else {
            match first_accepted(rest, accepted) {
                Some(name) => {
                    let i = choose|i: int|
                        0 <= i < rest.len() && #[trigger] rest[i] == name && accepted(name)
                            && forall|k: int| 0 <= k < i ==> !accepted(#[trigger] rest[k]);
                    assert(order[i + 1] == name);
                    assert forall|k: int| 0 <= k < i + 1 implies !accepted(#[trigger] order[k]) by {
                        if k > 0 {
                            assert(rest[k - 1] == order[k]);
                        }
                    }
                },
                None => {
                    assert forall|k: int| 0 <= k < order.len() implies !accepted(
                        #[trigger] order[k],
                    ) by {
                        if k > 0 {
                            assert(rest[k - 1] == order[k]);
                        }
                    }
                },
            }
        }
    }
}

/// The default group is the first one of the boot order that is one of the flow and that the
/// boot loader boots. There is a default wherever there is such a group.
pub proof fn law_default_is_the_first_bootable_group(
    vars: Map<Seq<char>, Seq<char>>,
    names: Map<usize, Seq<char>>,
    boots: spec_fn(Seq<char>) -> bool,
)
    ensures
        match default_name(vars, names, boots) {
            Some(name) => exists|i: int|
                #[trigger] is_bootable(vars, names, boots, i) && words(vars["BOOT_ORDER"@])[i]
                    == name && forall|k: int|
                    0 <= k < i ==> !#[trigger] is_bootable(vars, names, boots, k),
            None => forall|k: int| !#[trigger] is_bootable(vars, names, boots, k),
        },
{
    let accepted = |name: Seq<char>| is_group_name(names, name) && boots(name);
    let order = boot_order(vars);
    lemma_words_trimmed(vars["BOOT_ORDER"@]);
    assert(order == words(vars["BOOT_ORDER"@]));
    lemma_first_accepted(order, accepted);
    match default_name(vars, names, boots) {
        Some(name) => {
            let i = choose|i: int|
                0 <= i < order.len() && #[trigger] order[i] == name && accepted(name) && forall|
                    k: int,
                |
                    0 <= k < i ==> !accepted(#[trigger] order[k]);
            assert(is_bootable(vars, names, boots, i));
            assert forall|k: int| 0 <= k < i implies !#[trigger] is_bootable(
                vars,
                names,
                boots,
                k,
            ) by {
                assert(!accepted(order[k]));
            }
        },
        None => {
            assert forall|k: int| !#[trigger] is_bootable(vars, names, boots, k) by {
                if 0 <= k < order.len() {
                    assert(!accepted(order[k]));
                }
            }
        },
    }
}

/// A group that is marked as good is booted, wherever the boot order names it.
pub proof fn law_good_group_is_booted(vars: Map<Seq<char>, Seq<char>>, name: Seq<char>)
    ensures
        uboot_boots(updated(vars, uboot_left(name, "3"@)), name),
        grub_boots(updated(vars, grub_flags(name, "1"@)), name),
{
    lemma_small_numbers();
    let ok = name + "_OK"@;
    let attempt = name + "_TRY"@;
    reveal_strlit("_OK");
    reveal_strlit("_TRY");
    assert(ok.last() == 'K');
    assert(attempt.last() == 'Y');
    assert(updated(vars, grub_flags(name, "1"@))[ok] == "1"@);
    assert(updated(vars, grub_flags(name, "1"@))[attempt] == "0"@);
    assert(updated(vars, uboot_left(name, "3"@))["BOOT_"@ + name + "_LEFT"@] == "3"@);
}

proof fn lemma_same_ends(a: Seq<char>, b: Seq<char>, end: Seq<char>)
    requires
        a + end == b + end,
    ensures
        a == b,
{
    assert((a + end).len() == a.len() + end.len());
    assert((b + end).len() == b.len() + end.len());
    assert forall|i: int| 0 <= i < a.len() implies a[i] == b[i] by {
        assert((a + end)[i] == a[i]);
        assert((b + end)[i] == b[i]);
    }
    assert(a =~= b);
}

proof fn lemma_same_starts(start: Seq<char>, a: Seq<char>, b: Seq<char>)
    requires
        start + a == start + b,
    ensures
        a == b,
{
    assert((start + a).len() == start.len() + a.len());
    assert((start + b).len() == start.len() + b.len());
    assert forall|i: int| 0 <= i < a.len() implies a[i] == b[i] by {
        assert((start + a)[start.len() + i] == a[i]);
        assert((start + b)[start.len() + i] == b[i]);
    }
    assert(a =~= b);
}

/// Whatever is recorded of a group, the boot loader treats the other groups as before, and
/// where only a mark is recorded, the boot order is as before.
pub proof fn law_other_groups_are_left_alone(
    vars: Map<Seq<char>, Seq<char>>,
    name: Seq<char>,
    other: Seq<char>,
    value: Seq<char>,
)
    requires
        name != other,
    ensures
        ({
            let uboot = uboot_left(name, value);
            let grub = grub_flags(name, value);
            &&& uboot_boots(updated(vars, uboot), other) == uboot_boots(vars, other)
            &&& grub_boots(updated(vars, grub), other) == grub_boots(vars, other)
            &&& uboot_boots(updated(vars, with_priority(uboot, vars, name)), other) == uboot_boots(
                vars,
                other,
            )
            &&& grub_boots(updated(vars, with_priority(grub, vars, name)), other) == grub_boots(
                vars,
                other,
            )
            &&& vars.contains_key("BOOT_ORDER"@) ==> updated(vars, uboot)["BOOT_ORDER"@]
                == vars["BOOT_ORDER"@] && updated(vars, grub)["BOOT_ORDER"@] == vars["BOOT_ORDER"@]
        }),
{
    reveal_strlit("BOOT_ORDER");
    reveal_strlit("BOOT_");
    reveal_strlit("_LEFT");
    reveal_strlit("_OK");
    reveal_strlit("_TRY");
    let left = "BOOT_"@ + name + "_LEFT"@;
    let other_left = "BOOT_"@ + other + "_LEFT"@;
    assert(left != other_left) by {
        if left == other_left {
            lemma_same_ends("BOOT_"@ + name, "BOOT_"@ + other, "_LEFT"@);
            lemma_same_starts("BOOT_"@, name, other);
        }
    }
    assert(name + "_OK"@ != other + "_OK"@) by {
        if name + "_OK"@ == other + "_OK"@ {
            lemma_same_ends(name, other, "_OK"@);
        }
    }
    assert(name + "_TRY"@ != other + "_TRY"@) by {
        if name + "_TRY"@ == other + "_TRY"@ {
            lemma_same_ends(name, other, "_TRY"@);
        }
    }
    assert(left.last() == 'T' && other_left.last() == 'T');
    assert((name + "_OK"@).last() == 'K' && (other + "_OK"@).last() == 'K');
    assert((name + "_TRY"@).last() == 'Y' && (other + "_TRY"@).last() == 'Y');
    assert("BOOT_ORDER"@.last() == 'R');
}

/// Whether two texts follow each other at some positions.
pub open spec fn follows(order: Seq<Seq<char>>, first: Seq<char>, second: Seq<char>) -> bool {
    exists|a: int, b: int|
        0 <= a < b < order.len() && #[trigger] order[a] == first && #[trigger] order[b] == second
}

proof fn lemma_others_kept(order: Seq<Seq<char>>, group: Seq<char>)
    ensures
        forall|x: Seq<char>|
            x != group && #[trigger] order.contains(x) ==> others(order, group).contains(x),
        forall|i: int|
            0 <= i < others(order, group).len() ==> order.contains(
                #[trigger] others(order, group)[i],
            ),
        forall|i: int, j: int|
            0 <= i < j < others(order, group).len() ==> follows(
                order,
                #[trigger] others(order, group)[i],
                #[trigger] others(order, group)[j],
            ),
    decreases order.len(),
{
    if order.len() > 0 {
        let before = order.drop_last();
        let kept = others(before, group);
        let all = others(order, group);
        lemma_others_kept(before, group);
        lemma_others(order, group);
        assert forall|x: Seq<char>| x != group && #[trigger] order.contains(x) implies all.contains(
            x,
        ) by {
            let k = choose|k: int| 0 <= k < order.len() && order[k] == x;
            if k < before.len() {
                assert(before[k] == x);
                assert(before.contains(x));
                let p = choose|p: int| 0 <= p < kept.len() && kept[p] == x;
                assert(all[p] == x);
            } else {
                assert(all[kept.len() as int] == x);
            }
        }
        assert forall|i: int, j: int| 0 <= i < j < all.len() implies follows(
            order,
            #[trigger] all[i],
            #[trigger] all[j],
        ) by {
            assert(all[i] == kept[i]);
            if j < kept.len() {
                assert(all[j] == kept[j]);
                let (a, b) = choose|a: int, b: int|
                    0 <= a < b < before.len() && #[trigger] before[a] == kept[i]
                        && #[trigger] before[b] == kept[j];
                assert(order[a] == all[i] && order[b] == all[j]);
            } else {
                let a = choose|a: int| 0 <= a < before.len() && before[a] == kept[i];
                assert(order[a] == all[i] && order[order.len() - 1] == all[j]);
            }
        }
    }
}

/// The other groups all stay in a prioritized boot order, and in the order that they had.
pub proof fn law_other_groups_keep_their_order(order: Seq<char>, group: Seq<char>)
    requires
        is_word(group),
    ensures
        ({
            let after = words(prioritized(order, group));
            &&& after.len() > 0 && after[0] == group
            &&& forall|x: Seq<char>| #[trigger] words(order).contains(x) ==> after.contains(x)
            &&& forall|i: int|
                0 < i < after.len() ==> #[trigger] after[i] != group && words(order).contains(
                    after[i],
                )
            &&& forall|i: int, j: int|
                0 < i < j < after.len() ==> follows(
                    words(order),
                    #[trigger] after[i],
                    #[trigger] after[j],
                )
        }),
{
    law_prioritized_once(order, group);
    lemma_others_kept(words(order), group);
    let rest = others(words(order), group);
    let after = words(prioritized(order, group));
    assert forall|x: Seq<char>| #[trigger] words(order).contains(x) implies after.contains(x) by {
        if x == group {
            assert(after[0] == x);
        } else {
            let p = choose|p: int| 0 <= p < rest.len() && rest[p] == x;
            assert(after[p + 1] == x);
        }
    }
    assert forall|i: int| 0 < i < after.len() implies #[trigger] after[i] != group && words(
        order,
    ).contains(after[i]) by {
        assert(after[i] == rest[i - 1]);
    }
    assert forall|i: int, j: int| 0 < i < j < after.len() implies follows(
        words(order),
        #[trigger] after[i],
        #[trigger] after[j],
    ) by {
        assert(after[i] == rest[i - 1]);
        assert(after[j] == rest[j - 1]);
    }
}

} // verus!
