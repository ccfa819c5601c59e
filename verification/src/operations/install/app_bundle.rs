//! Checks on the payloads of an app bundle.

use vstd::prelude::*;
use crate::operations::install::preflight::one_if;
use crate::order::{
    arranged, is_text_order, lemma_text_total, lemma_text_transitive, lists_once, precedes,
    sort_strings, text_lt,
};
use crate::path::{is_app_name, is_contained, is_contained_path, is_valid_app_name};
use crate::text::views;

verus! {

/// How a payload of an app bundle wants to be delivered.
#[derive(Debug)]
pub struct AppPayloadDelivery {
    /// App and path of a file.
    pub app_file: Option<(String, String)>,
    /// App of an archive.
    pub app_archive: Option<String>,
    pub slot: bool,
    pub execute: bool,
}

/// Why a bundle is not an app bundle.
#[derive(Debug, Clone, Copy, PartialEq, Eq, Structural)]
pub enum AppBundleError {
    /// The bundle does not contain any payloads.
    NoPayloads,
    /// The payload must declare exactly one delivery type.
    DeliveryTypes { payload: usize, count: usize },
    /// The payload is not an app payload.
    NotAnAppPayload { payload: usize },
    /// The app name of the payload is invalid.
    InvalidAppName { payload: usize },
    /// The path of the payload is invalid.
    InvalidPath { payload: usize },
    /// The bundle declares components but does not contain app payloads.
    ComponentsWithoutApp,
    /// The bundle declares components for multiple apps.
    ComponentsForManyApps,
}

/// The number of delivery types that a payload declares.
pub open spec fn app_delivery_types(delivery: AppPayloadDelivery) -> nat {
    one_if(delivery.app_file is Some) + one_if(delivery.app_archive is Some) + one_if(delivery.slot)
        + one_if(delivery.execute)
}

/// The app that a payload belongs to.
pub open spec fn delivery_app(delivery: AppPayloadDelivery) -> Option<Seq<char>> {
    match delivery.app_file {
        Some(file) => Some(file.0@),
        None => match delivery.app_archive {
            Some(app) => Some(app@),
            None => None,
        },
    }
}

/// What is wrong with a payload, if anything.
pub open spec fn delivery_error(delivery: AppPayloadDelivery, payload: usize) -> Option<
    AppBundleError,
> {
    let count = app_delivery_types(delivery);
    if count != 1 {
        Some(AppBundleError::DeliveryTypes { payload, count: count as usize })
    } else if delivery.slot || delivery.execute {
        Some(AppBundleError::NotAnAppPayload { payload })
    } else if !is_app_name(delivery_app(delivery)->0) {
        Some(AppBundleError::InvalidAppName { payload })
    } else if delivery.app_file is Some && !is_contained((delivery.app_file->0).1@) {
        Some(AppBundleError::InvalidPath { payload })
    } else {
        None
    }
}

/// The first thing that is wrong with the payloads from `from` on.
pub open spec fn first_delivery_error(deliveries: Seq<AppPayloadDelivery>, from: nat) -> Option<
    AppBundleError,
>
    decreases deliveries.len() - from,
{
    if from >= deliveries.len() {
        None
    } else {
        match delivery_error(deliveries[from as int], from as usize) {
            Some(e) => Some(e),
            None => first_delivery_error(deliveries, from + 1),
        }
    }
}

/// Why the payloads are not those of an app bundle.
pub open spec fn app_bundle_error(deliveries: Seq<AppPayloadDelivery>) -> Option<AppBundleError> {
    if deliveries.len() == 0 {
        Some(AppBundleError::NoPayloads)
    } else {
        first_delivery_error(deliveries, 0)
    }
}

fn count_if(condition: bool) -> (r: usize)
    ensures
        r == one_if(condition),
{
    if condition {
        1
    } else {
        0
    }
}

fn check_delivery(delivery: &AppPayloadDelivery, payload: usize) -> (r: Option<AppBundleError>)
    ensures
        r == delivery_error(*delivery, payload),
{
    let count: usize = count_if(delivery.app_file.is_some()) + count_if(
        delivery.app_archive.is_some(),
    ) + count_if(delivery.slot) + count_if(delivery.execute);
    if count != 1 {
        return Some(AppBundleError::DeliveryTypes { payload, count });
    }
    if delivery.slot || delivery.execute {
        return Some(AppBundleError::NotAnAppPayload { payload });
    }
    match &delivery.app_file {
        Some(file) => {
            if !is_valid_app_name(file.0.as_str()) {
                return Some(AppBundleError::InvalidAppName { payload });
            }
            if !is_contained_path(file.1.as_str()) {
                return Some(AppBundleError::InvalidPath { payload });
            }
        },
        None => match &delivery.app_archive {
            Some(app) => {
                if !is_valid_app_name(app.as_str()) {
                    return Some(AppBundleError::InvalidAppName { payload });
                }
            },
            None => {},
        },
    }
    None
}

/// Checks the payloads of an app bundle.
pub fn validate_app_deliveries(deliveries: &Vec<AppPayloadDelivery>) -> (r: Result<
    (),
    AppBundleError,
>)
    ensures
        match r {
            Ok(()) => app_bundle_error(deliveries@) is None,
            Err(e) => app_bundle_error(deliveries@) == Some(e),
        },
{
    if deliveries.len() == 0 {
        return Err(AppBundleError::NoPayloads);
    }
    let mut i: usize = 0;
    while i < deliveries.len()
        invariant
            i <= deliveries@.len(),
            deliveries@.len() > 0,
            first_delivery_error(deliveries@, 0) == first_delivery_error(deliveries@, i as nat),
        decreases deliveries@.len() - i,
    {
        if let Some(e) = check_delivery(&deliveries[i], i) {
            return Err(e);
        }
        i = i + 1;
    }
    Ok(())
}

proof fn lemma_no_delivery_error(deliveries: Seq<AppPayloadDelivery>, from: nat, i: int)
    requires
        first_delivery_error(deliveries, from) is None,
        from <= i < deliveries.len(),
    ensures
        delivery_error(deliveries[i], i as usize) is None,
    decreases deliveries.len() - from,
{
    if from < i {
        lemma_no_delivery_error(deliveries, from + 1, i);
    }
}

/// In a valid app bundle every payload belongs to an app with a valid name, and
/// every file stays below the directory of its generation.
pub proof fn law_valid_app_bundle_is_contained(deliveries: Seq<AppPayloadDelivery>, i: int)
    requires
        app_bundle_error(deliveries) is None,
        0 <= i < deliveries.len(),
    ensures
        delivery_app(deliveries[i]) matches Some(app) && is_app_name(app),
        deliveries[i].app_file matches Some(file) ==> is_contained(file.1@),
        !deliveries[i].slot && !deliveries[i].execute,
{
    lemma_no_delivery_error(deliveries, 0, i);
}

/// The apps of the first `n` payloads, in their order.
pub open spec fn delivery_apps(deliveries: Seq<AppPayloadDelivery>, n: nat) -> Seq<Seq<char>>
    decreases n,
{
    if n == 0 {
        Seq::empty()
    } else {
        let before = delivery_apps(deliveries, (n - 1) as nat);
        match delivery_app(deliveries[n - 1]) {
            Some(app) => before.push(app),
            None => before,
        }
    }
}

/// Whether texts are in order and no two are the same.
pub open spec fn is_strictly_sorted(s: Seq<Seq<char>>) -> bool {
    forall|i: int, j: int| 0 <= i < j < s.len() ==> text_lt(#[trigger] s[i], #[trigger] s[j])
}

/// Whether two sequences have the same elements.
pub open spec fn same_elements(a: Seq<Seq<char>>, b: Seq<Seq<char>>) -> bool {
    forall|s: Seq<char>| a.contains(s) <==> b.contains(s)
}

fn dedup_sorted(sorted: &Vec<String>) -> (r: Vec<String>)
    requires
        forall|i: int, j: int|
            0 <= i < j < sorted@.len() ==> !text_lt(
                #[trigger] views(sorted@)[j],
                #[trigger] views(sorted@)[i],
            ),
    ensures
        is_strictly_sorted(views(r@)),
        same_elements(views(r@), views(sorted@)),
{
    let ghost all = views(sorted@);
    let mut r: Vec<String> = Vec::new();
    let mut i: usize = 0;
    while i < sorted.len()
        invariant
            i <= sorted@.len(),
            all == views(sorted@),
            all.len() == sorted@.len(),
            is_strictly_sorted(views(r@)),
            forall|a: int, b: int|
                0 <= a < b < all.len() ==> !text_lt(#[trigger] all[b], #[trigger] all[a]),
            forall|s: Seq<char>|
                views(r@).contains(s) <==> exists|k: int| 0 <= k < i && #[trigger] all[k] == s,
            i == 0 ==> r@.len() == 0,
            i > 0 ==> r@.len() > 0 && views(r@).last() == all[i - 1],
        decreases sorted@.len() - i,
    {
        let ghost before = views(r@);
        let item = &sorted[i];
        assert(all[i as int] == item@);
        let fresh = i == 0 || !crate::text::same(sorted[i - 1].as_str(), item.as_str());
        assert(i > 0 ==> all[i - 1] == sorted@[i - 1]@);
        if fresh {
            r.push(item.clone());
            let ghost now = views(r@);
            assert(now =~= before.push(item@));
            proof {
                assert forall|a: int, b: int| 0 <= a < b < now.len() implies text_lt(
                    #[trigger] now[a],
                    #[trigger] now[b],
                ) by {
                    if b < before.len() {
                        assert(now[a] == before[a] && now[b] == before[b]);
                    } else {
                        assert(now[a] == before[a]);
                        assert(now[b] == item@);
                        let last = all[i - 1];
                        assert(!text_lt(all[i as int], last));
                        lemma_text_total(last, item@);
                        assert(text_lt(last, item@));
                        if a < before.len() - 1 {
                            assert(text_lt(before[a], before[before.len() - 1]));
                            lemma_text_transitive(before[a], last, item@);
                        }
                    }
                }
                assert forall|s: Seq<char>| now.contains(s) <==> exists|k: int|
                    0 <= k < i + 1 && #[trigger] all[k] == s by {
                    if now.contains(s) {
                        let k = choose|k: int| 0 <= k < now.len() && now[k] == s;
                        if k < before.len() {
                            assert(before[k] == s);
                            assert(before.contains(s));
                        } else {
                            assert(all[i as int] == s);
                        }
                    }
                    if exists|k: int| 0 <= k < i + 1 && #[trigger] all[k] == s {
                        let k = choose|k: int| 0 <= k < i + 1 && #[trigger] all[k] == s;
                        if k < i {
                            assert(before.contains(s));
                            let p = choose|p: int| 0 <= p < before.len() && before[p] == s;
                            assert(now[p] == s);
                        } else {
                            assert(now[before.len() as int] == s);
                        }
                    }
                }
            }
        } else {
            proof {
                assert forall|s: Seq<char>| before.contains(s) <==> exists|k: int|
                    0 <= k < i + 1 && #[trigger] all[k] == s by {
                    if exists|k: int| 0 <= k < i + 1 && #[trigger] all[k] == s {
                        let k = choose|k: int| 0 <= k < i + 1 && #[trigger] all[k] == s;
                        if k == i {
                            assert(all[i - 1] == s);
                        }
                    }
                }
            }
        }
        i = i + 1;
    }
    assert forall|s: Seq<char>| views(r@).contains(s) <==> all.contains(s) by {
        if all.contains(s) {
            let k = choose|k: int| 0 <= k < all.len() && all[k] == s;
            assert(all[k] == s);
        }
    }
    r
}

/// The apps that a bundle has payloads for: each once, in order.
pub fn touched_apps(deliveries: &Vec<AppPayloadDelivery>) -> (r: Vec<String>)
    ensures
        is_strictly_sorted(views(r@)),
        same_elements(views(r@), delivery_apps(deliveries@, deliveries@.len())),
{
    let mut apps: Vec<String> = Vec::new();
    let mut i: usize = 0;
    while i < deliveries.len()
        invariant
            i <= deliveries@.len(),
            views(apps@) == delivery_apps(deliveries@, i as nat),
        decreases deliveries@.len() - i,
    {
        let ghost before = views(apps@);
        match &deliveries[i].app_file {
            Some(file) => {
                apps.push(file.0.clone());
                assert(views(apps@) =~= before.push(file.0@));
            },
            None => match &deliveries[i].app_archive {
                Some(app) => {
                    apps.push(app.clone());
                    assert(views(apps@) =~= before.push(app@));
                },
                None => {},
            },
        }
        i = i + 1;
    }
    let sorted = sort_strings(&apps);
    proof {
        let keys = views(apps@);
        let order = choose|order: Seq<usize>| #[trigger]
            is_text_order(order, keys) && views(sorted@) == arranged(
                order,
                keys,
            );
        let s = views(sorted@);
        assert forall|i: int, j: int| 0 <= i < j < s.len() implies !text_lt(
            #[trigger] s[j],
            #[trigger] s[i],
        ) by {
            assert(precedes(keys, order[i] as int, order[j] as int));
            lemma_text_total(s[i], s[j]);
        }
        lemma_order_covers(order, keys);
        assert forall|x: Seq<char>| s.contains(x) <==> keys.contains(x) by {
            if s.contains(x) {
                let k = choose|k: int| 0 <= k < s.len() && s[k] == x;
                assert(keys[order[k] as int] == x);
            }
            if keys.contains(x) {
                let k = choose|k: int| 0 <= k < keys.len() && keys[k] == x;
                assert(lists(order, k));
                let p = choose|p: int| 0 <= p < order.len() && #[trigger] order[p] == k;
                assert(s[p] == x);
            }
        }
    }
    dedup_sorted(&sorted)
}

/// Whether an order lists an index.
pub open spec fn lists(order: Seq<usize>, k: int) -> bool {
    exists|p: int| 0 <= p < order.len() && #[trigger] order[p] == k
}

proof fn lemma_order_covers(order: Seq<usize>, keys: Seq<Seq<char>>)
    requires
        lists_once(order, keys.len()),
    ensures
        forall|k: int| 0 <= k < keys.len() ==> #[trigger] lists(order, k),
{
    let n = keys.len();
    let ints = order.map_values(|i: usize| i as int);
    assert(ints.no_duplicates()) by {
        assert forall|i: int, j: int| 0 <= i < ints.len() && 0 <= j < ints.len() && i != j implies ints[i]
            != ints[j] by {
            if i < j {
                assert(order[i] != order[j]);
            } else {
                assert(order[j] != order[i]);
            }
        }
    }
    ints.unique_seq_to_set();
    let covered = ints.to_set();
    let range = vstd::set_lib::set_int_range(0, n as int);
    vstd::set_lib::lemma_int_range(0, n as int);
    assert(covered.subset_of(range)) by {
        assert forall|x: int| covered.contains(x) implies range.contains(x) by {
            let i = choose|i: int| 0 <= i < ints.len() && ints[i] == x;
            assert(order[i] < n);
        }
    }
    vstd::set_lib::lemma_subset_equality(covered, range);
    assert forall|k: int| 0 <= k < n implies #[trigger] lists(order, k) by {
        assert(range.contains(k));
        assert(covered.contains(k));
        let p = choose|p: int| 0 <= p < ints.len() && ints[p] == k;
        assert(order[p] == k);
    }
}

/// The app that the components of a bundle belong to: the only one that the
/// bundle has payloads for.
pub fn app_bundle_components_owner(touched_apps: &Vec<String>) -> (r: Result<
    String,
    AppBundleError,
>)
    ensures
        r is Ok == (touched_apps@.len() == 1),
        r matches Ok(app) ==> app@ == touched_apps@[0]@,
        r matches Err(e) ==> e == if touched_apps@.len() == 0 {
            AppBundleError::ComponentsWithoutApp
        } else {
            AppBundleError::ComponentsForManyApps
        },
{
    if touched_apps.len() == 0 {
        Err(AppBundleError::ComponentsWithoutApp)
    } else if touched_apps.len() == 1 {
        Ok(touched_apps[0].clone())
    } else {
        Err(AppBundleError::ComponentsForManyApps)
    }
}

proof fn lemma_first_delivery_error(deliveries: Seq<AppPayloadDelivery>, from: nat)
    requires
        deliveries.len() <= usize::MAX,
    ensures
        first_delivery_error(deliveries, from) matches Some(e) ==> exists|i: int|
            from <= i < deliveries.len() && #[trigger] delivery_error(deliveries[i], i as usize)
                == Some(e),
    decreases deliveries.len() - from,
{
    if from < deliveries.len() {
        if delivery_error(deliveries[from as int], from as usize) is None {
            lemma_first_delivery_error(deliveries, from + 1);
        } else {
            assert(delivery_error(deliveries[from as int], from as usize) is Some);
        }
    }
}

/// Payloads are refused as those of an app bundle for a reason, which is one of the payload
/// that is named.
pub proof fn law_app_bundle_is_refused_for_a_reason(deliveries: Seq<AppPayloadDelivery>)
    requires
        deliveries.len() <= usize::MAX,
    ensures
        match app_bundle_error(deliveries) {
            None => deliveries.len() > 0,
            Some(AppBundleError::NoPayloads) => deliveries.len() == 0,
            Some(AppBundleError::DeliveryTypes { payload, count }) => payload < deliveries.len()
                && count != 1 && ({
                let d = deliveries[payload as int];
                &&& count == 0 <==> d.app_file is None && d.app_archive is None && !d.slot
                    && !d.execute
                &&& count == 4 <==> d.app_file is Some && d.app_archive is Some && d.slot
                    && d.execute
            }),
            Some(AppBundleError::NotAnAppPayload { payload }) => payload < deliveries.len() && (
            deliveries[payload as int].slot || deliveries[payload as int].execute),
            Some(AppBundleError::InvalidAppName { payload }) => payload < deliveries.len() && (
            delivery_app(deliveries[payload as int]) matches Some(app) && !is_app_name(app)),
            Some(AppBundleError::InvalidPath { payload }) => payload < deliveries.len() && (
            deliveries[payload as int].app_file matches Some(file) && !is_contained(file.1@)),
            Some(_) => false,
        },
{
    lemma_first_delivery_error(deliveries, 0);
    if deliveries.len() > 0 && app_bundle_error(deliveries) is Some {
        let e = app_bundle_error(deliveries)->0;
        let i = choose|i: int|
            0 <= i < deliveries.len() && #[trigger] delivery_error(deliveries[i], i as usize)
                == Some(e);
        assert(delivery_error(deliveries[i], i as usize) == Some(e));
    }
}

proof fn lemma_delivery_apps(deliveries: Seq<AppPayloadDelivery>, app: Seq<char>, n: nat)
    requires
        n <= deliveries.len(),
    ensures
        delivery_apps(deliveries, n).contains(app) <==> exists|i: int|
            0 <= i < n && delivery_app(#[trigger] deliveries[i]) == Some(app),
    decreases n,
{
    if n > 0 {
        lemma_delivery_apps(deliveries, app, (n - 1) as nat);
        let before = delivery_apps(deliveries, (n - 1) as nat);
        let all = delivery_apps(deliveries, n);
        if before.contains(app) {
            let k = choose|k: int| 0 <= k < before.len() && before[k] == app;
            assert(all[k] == app);
        }
        if all.contains(app) {
            let k = choose|k: int| 0 <= k < all.len() && all[k] == app;
            if k < before.len() {
                assert(before[k] == app);
            } else {
                assert(delivery_app(deliveries[n - 1]) == Some(app));
            }
        }
        if delivery_app(deliveries[n - 1]) == Some(app) {
            assert(all[before.len() as int] == app);
        }
    }
}

/// Whether a payload is a file or an archive of an app.
pub open spec fn is_payload_of(delivery: AppPayloadDelivery, app: Seq<char>) -> bool {
    match delivery.app_file {
        Some(file) => file.0@ == app,
        None => delivery.app_archive is Some && delivery.app_archive->0@ == app,
    }
}

/// A bundle touches the apps that it has a file or an archive for, and no other ones.
pub proof fn law_touched_apps_have_payloads(deliveries: Seq<AppPayloadDelivery>, app: Seq<char>)
    ensures
        delivery_apps(deliveries, deliveries.len()).contains(app) <==> exists|i: int|
            0 <= i < deliveries.len() && is_payload_of(#[trigger] deliveries[i], app),
{
    lemma_delivery_apps(deliveries, app, deliveries.len());
}

} // verus!
