//! Orders on texts, and stable sorting by a key.

use vstd::prelude::*;
use crate::text::{chars_of, views};

verus! {

/// Whether `a` comes before `b`, comparing character by character.
pub open spec fn text_lt(a: Seq<char>, b: Seq<char>) -> bool
    decreases a.len(),
{
    if b.len() == 0 {
        false
    } else if a.len() == 0 {
        true
    } else if a[0] == b[0] {
        text_lt(a.drop_first(), b.drop_first())
    } else {
        a[0] < b[0]
    }
}

/// Of two texts one comes first, unless they are equal.
pub proof fn lemma_text_total(a: Seq<char>, b: Seq<char>)
    ensures
        text_lt(a, b) || text_lt(b, a) || a == b,
        !(text_lt(a, b) && text_lt(b, a)),
        a == b ==> !text_lt(a, b),
    decreases a.len(),
{
    if a.len() > 0 && b.len() > 0 {
        lemma_text_total(a.drop_first(), b.drop_first());
        if a[0] == b[0] && a.drop_first() == b.drop_first() {
            assert(a =~= seq![a[0]] + a.drop_first());
            assert(b =~= seq![b[0]] + b.drop_first());
        }
    } else if a.len() == 0 && b.len() == 0 {
        assert(a =~= b);
    }
}

/// The order on texts is transitive.
pub proof fn lemma_text_transitive(a: Seq<char>, b: Seq<char>, c: Seq<char>)
    requires
        text_lt(a, b),
        text_lt(b, c),
    ensures
        text_lt(a, c),
    decreases a.len(),
{
    if a.len() > 0 && a[0] == b[0] && b[0] == c[0] {
        lemma_text_transitive(a.drop_first(), b.drop_first(), c.drop_first());
    }
}

/// Whether `a` comes before `b`.
pub fn text_less(a: &str, b: &str) -> (r: bool)
    ensures
        r == text_lt(a@, b@),
{
    let left = chars_of(a);
    let right = chars_of(b);
    let mut i: usize = 0;
    assert(a@.skip(0) =~= a@);
    assert(b@.skip(0) =~= b@);
    while i < left.len() && i < right.len() && left[i] == right[i]
        invariant
            left@ == a@,
            right@ == b@,
            i <= left@.len(),
            i <= right@.len(),
            text_lt(a@, b@) == text_lt(a@.skip(i as int), b@.skip(i as int)),
        decreases left@.len() - i,
    {
        assert(a@.skip(i as int).drop_first() =~= a@.skip(i + 1));
        assert(b@.skip(i as int).drop_first() =~= b@.skip(i + 1));
        i = i + 1;
    }
    if i >= right.len() {
        false
    } else if i >= left.len() {
        true
    } else {
        left[i] < right[i]
    }
}

/// Whether the index `x` stands before `y` when sorting by `keys`: its key comes
/// first, or the keys are equal and it came first.
pub open spec fn precedes(keys: Seq<Seq<char>>, x: int, y: int) -> bool {
    text_lt(keys[x], keys[y]) || (keys[x] == keys[y] && x < y)
}

/// Whether `r` lists every index below `n` once.
pub open spec fn lists_once(r: Seq<usize>, n: nat) -> bool {
    &&& r.len() == n
    &&& forall|i: int| 0 <= i < r.len() ==> #[trigger] r[i] < n
    &&& forall|i: int, j: int| 0 <= i < j < r.len() ==> r[i] != r[j]
}

/// Whether `r` is the stable order of `keys`.
pub open spec fn is_text_order(r: Seq<usize>, keys: Seq<Seq<char>>) -> bool {
    &&& lists_once(r, keys.len())
    &&& forall|i: int, j: int|
        0 <= i < j < r.len() ==> precedes(keys, #[trigger] r[i] as int, #[trigger] r[j] as int)
}

proof fn lemma_precedes_transitive(keys: Seq<Seq<char>>, x: int, y: int, z: int)
    requires
        precedes(keys, x, y),
        precedes(keys, y, z),
    ensures
        precedes(keys, x, z),
{
    if text_lt(keys[x], keys[y]) && text_lt(keys[y], keys[z]) {
        lemma_text_transitive(keys[x], keys[y], keys[z]);
    }
}

/// The indices of `keys` in the stable order of the keys.
pub fn text_order(keys: &Vec<String>) -> (r: Vec<usize>)
    ensures
        is_text_order(r@, views(keys@)),
{
    let mut r: Vec<usize> = Vec::new();
    let mut i: usize = 0;
    let ghost k = views(keys@);
    while i < keys.len()
        invariant
            i <= keys@.len(),
            k == views(keys@),
            lists_once(r@, i as nat),
            forall|a: int, b: int|
                0 <= a < b < r@.len() ==> precedes(k, #[trigger] r@[a] as int, #[trigger] r@[b] as int),
        decreases keys@.len() - i,
    {
        let mut p: usize = r.len();
        while p > 0 && text_less(keys[i].as_str(), keys[r[p - 1]].as_str())
            invariant
                i < keys@.len(),
                k == views(keys@),
                p <= r@.len(),
                lists_once(r@, i as nat),
                forall|b: int| p <= b < r@.len() ==> precedes(k, i as int, #[trigger] r@[b] as int),
            decreases p,
        {
            assert(k[i as int] == keys@[i as int]@);
            assert(k[r@[p - 1] as int] == keys@[r@[p - 1] as int]@);
            p = p - 1;
        }
        let ghost old = r@;
        proof {
            if p > 0 {
                let q = old[p - 1] as int;
                assert(k[i as int] == keys@[i as int]@);
                assert(k[q] == keys@[q]@);
                lemma_text_total(k[i as int], k[q]);
                assert(precedes(k, q, i as int));
                assert forall|a: int| 0 <= a < p implies precedes(
                    k,
                    #[trigger] old[a] as int,
                    i as int,
                ) by {
                    if a < p - 1 {
                        lemma_precedes_transitive(k, old[a] as int, q, i as int);
                    }
                }
            }
        }
        r.insert(p, i);
        assert(r@ =~= old.insert(p as int, i));
        assert forall|a: int, b: int| 0 <= a < b < r@.len() implies precedes(
            k,
            #[trigger] r@[a] as int,
            #[trigger] r@[b] as int,
        ) by {
            let oa = if a < p { a } else { a - 1 };
            let ob = if b < p { b } else { b - 1 };
            if a != p && b != p {
                assert(r@[a] == old[oa]);
                assert(r@[b] == old[ob]);
            } else if a == p {
                assert(r@[b] == old[ob]);
            } else {
                assert(r@[a] == old[oa]);
            }
        }
        assert forall|a: int, b: int| 0 <= a < b < r@.len() implies r@[a] != r@[b] by {
            let oa = if a < p { a } else { a - 1 };
            let ob = if b < p { b } else { b - 1 };
            if a != p {
                assert(r@[a] == old[oa]);
            }
            if b != p {
                assert(r@[b] == old[ob]);
            }
        }
        assert forall|a: int| 0 <= a < r@.len() implies #[trigger] r@[a] < i + 1 by {
            let oa = if a < p { a } else { a - 1 };
            if a != p {
                assert(r@[a] == old[oa]);
            }
        }
        i = i + 1;
    }
    r
}

/// The texts in the order of the given indices.
pub open spec fn arranged(r: Seq<usize>, keys: Seq<Seq<char>>) -> Seq<Seq<char>> {
    r.map_values(|i: usize| keys[i as int])
}

/// Whether `r` holds the texts of `s`, each as often, in order.
pub open spec fn is_sorted_texts(r: Seq<Seq<char>>, s: Seq<Seq<char>>) -> bool {
    exists|order: Seq<usize>| #[trigger] is_text_order(order, s) && r == arranged(order, s)
}

/// Sorts strings.
pub fn sort_strings(keys: &Vec<String>) -> (r: Vec<String>)
    ensures
        is_sorted_texts(views(r@), views(keys@)),
{
    let order = text_order(keys);
    let mut r: Vec<String> = Vec::new();
    let mut i: usize = 0;
    while i < order.len()
        invariant
            i <= order@.len(),
            is_text_order(order@, views(keys@)),
            views(r@) == arranged(order@, views(keys@)).take(i as int),
        decreases order@.len() - i,
    {
        let ghost before = views(r@);
        assert(order@[i as int] < keys@.len());
        r.push(keys[order[i]].clone());
        assert(views(r@) =~= before.push(keys@[order@[i as int] as int]@));
        assert(arranged(order@, views(keys@)).take(i + 1) =~= before.push(
            keys@[order@[i as int] as int]@,
        ));
        i = i + 1;
    }
    assert(arranged(order@, views(keys@)).take(i as int) =~= arranged(order@, views(keys@)));
    r
}

/// Whether the index `x` stands before `y` when sorting by numbers.
pub open spec fn number_precedes(keys: Seq<u64>, x: int, y: int) -> bool {
    keys[x] < keys[y] || (keys[x] == keys[y] && x < y)
}

/// Whether `r` is the stable order of `keys`.
pub open spec fn is_number_order(r: Seq<usize>, keys: Seq<u64>) -> bool {
    &&& lists_once(r, keys.len())
    &&& forall|i: int, j: int|
        0 <= i < j < r.len() ==> number_precedes(
            keys,
            #[trigger] r[i] as int,
            #[trigger] r[j] as int,
        )
}

/// The indices of `keys` in the stable order of the numbers.
pub fn number_order(keys: &Vec<u64>) -> (r: Vec<usize>)
    ensures
        is_number_order(r@, keys@),
{
    let mut r: Vec<usize> = Vec::new();
    let mut i: usize = 0;
    while i < keys.len()
        invariant
            i <= keys@.len(),
            lists_once(r@, i as nat),
            forall|a: int, b: int|
                0 <= a < b < r@.len() ==> number_precedes(
                    keys@,
                    #[trigger] r@[a] as int,
                    #[trigger] r@[b] as int,
                ),
        decreases keys@.len() - i,
    {
        let mut p: usize = r.len();
        while p > 0 && keys[i] < keys[r[p - 1]]
            invariant
                i < keys@.len(),
                p <= r@.len(),
                lists_once(r@, i as nat),
                forall|b: int|
                    p <= b < r@.len() ==> number_precedes(keys@, i as int, #[trigger] r@[b] as int),
            decreases p,
        {
            p = p - 1;
        }
        let ghost old = r@;
        proof {
            if p > 0 {
                let q = old[p - 1] as int;
                assert(number_precedes(keys@, q, i as int));
                assert forall|a: int| 0 <= a < p implies number_precedes(
                    keys@,
                    #[trigger] old[a] as int,
                    i as int,
                ) by {
                    if a < p - 1 {
                        assert(number_precedes(keys@, old[a] as int, q));
                    }
                }
            }
        }
        r.insert(p, i);
        assert(r@ =~= old.insert(p as int, i));
        assert forall|a: int, b: int| 0 <= a < b < r@.len() implies number_precedes(
            keys@,
            #[trigger] r@[a] as int,
            #[trigger] r@[b] as int,
        ) && r@[a] != r@[b] by {
            let oa = if a < p { a } else { a - 1 };
            let ob = if b < p { b } else { b - 1 };
            if a != p {
                assert(r@[a] == old[oa]);
            }
            if b != p {
                assert(r@[b] == old[ob]);
            }
        }
        assert forall|a: int| 0 <= a < r@.len() implies #[trigger] r@[a] < i + 1 by {
            let oa = if a < p { a } else { a - 1 };
            if a != p {
                assert(r@[a] == old[oa]);
            }
        }
        i = i + 1;
    }
    r
}

/// What lists every index below `n` once lists each of them.
pub proof fn lemma_lists_all(r: Seq<usize>, n: nat, k: usize)
    requires
        lists_once(r, n),
        k < n,
    ensures
        r.contains(k),
{
    let numbers = r.map_values(|i: usize| i as int);
    let all = vstd::set_lib::set_int_range(0, n as int);
    assert(numbers.no_duplicates());
    numbers.unique_seq_to_set();
    vstd::set_lib::lemma_int_range(0, n as int);
    assert forall|x: int| numbers.to_set().contains(x) implies all.contains(x) by {
        let i = choose|i: int| 0 <= i < numbers.len() && numbers[i] == x;
        assert(r[i] < n);
    }
    vstd::set_lib::lemma_len_subset(numbers.to_set(), all);
    vstd::set_lib::lemma_subset_equality(numbers.to_set(), all);
    assert(all.contains(k as int));
    assert(numbers.to_set().contains(k as int));
    let i = choose|i: int| 0 <= i < numbers.len() && numbers[i] == k;
    assert(r[i] == k);
}

/// Sorting texts keeps all of them and adds none, and none of them comes after one that it
/// comes before.
pub proof fn law_sorted_texts_are_the_same_texts(r: Seq<Seq<char>>, s: Seq<Seq<char>>)
    requires
        is_sorted_texts(r, s),
        s.len() <= usize::MAX,
    ensures
        r.len() == s.len(),
        forall|x: Seq<char>| #[trigger] r.contains(x) <==> s.contains(x),
        forall|i: int, j: int|
            0 <= i < j < r.len() ==> !text_lt(#[trigger] r[j], #[trigger] r[i]),
{
    let order = choose|order: Seq<usize>| #[trigger] is_text_order(order, s) && r == arranged(
        order,
        s,
    );
    assert forall|x: Seq<char>| #[trigger] r.contains(x) <==> s.contains(x) by {
        if r.contains(x) {
            let i = choose|i: int| 0 <= i < r.len() && r[i] == x;
            assert(s[order[i] as int] == x);
        }
        if s.contains(x) {
            let k = choose|k: int| 0 <= k < s.len() && s[k] == x;
            lemma_lists_all(order, s.len(), k as usize);
            let i = choose|i: int| 0 <= i < order.len() && order[i] == k as usize;
            assert(r[i] == x);
        }
    }
    assert forall|i: int, j: int| 0 <= i < j < r.len() implies !text_lt(
        #[trigger] r[j],
        #[trigger] r[i],
    ) by {
        assert(precedes(s, order[i] as int, order[j] as int));
        lemma_text_total(s[order[i] as int], s[order[j] as int]);
    }
}

} // verus!
