//! Paths as texts.

use vstd::prelude::*;
use crate::text::{
    ascii_lowered, chars_of, concat, eq_ignore_ascii_case, has_prefix, pieces, same, split_at,
    string_of_range, views,
};

verus! {

/// Whether a path starts at the root.
pub open spec fn is_rooted(path: Seq<char>) -> bool {
    path.len() > 0 && path[0] == '/'
}

/// The path `rest` below `base`; a rooted `rest` stands for itself.
pub open spec fn path_join(base: Seq<char>, rest: Seq<char>) -> Seq<char> {
    if is_rooted(rest) {
        rest
    } else if base.len() == 0 || base.last() == '/' {
        base + rest
    } else {
        base + seq!['/'] + rest
    }
}

/// Whether a path starts at the root.
pub fn is_absolute(path: &str) -> (r: bool)
    ensures
        r == is_rooted(path@),
{
    let chars = chars_of(path);
    chars.len() > 0 && chars[0] == '/'
}

/// Joins two paths.
pub fn join(base: &str, rest: &str) -> (r: String)
    ensures
        r@ == path_join(base@, rest@),
{
    if is_absolute(rest) {
        return rest.to_owned();
    }
    let chars = chars_of(base);
    if chars.len() == 0 || chars[chars.len() - 1] == '/' {
        concat(base, rest)
    } else {
        let mut r: String = base.to_owned();
        r.push('/');
        assert(r@ =~= base@ + seq!['/']);
        r.append(rest);
        r
    }
}

/// The texts between the slashes of a path.
pub open spec fn segments(path: Seq<char>) -> Seq<Seq<char>> {
    pieces(path, '/')
}

/// Splits a path at its slashes.
pub fn split_segments(path: &str) -> (r: Vec<String>)
    ensures
        views(r@) == segments(path@),
        r@.len() > 0,
{
    split_at(path, '/')
}

/// Whether a segment names an entry of a directory.
pub open spec fn is_plain_segment(segment: Seq<char>) -> bool {
    segment.len() > 0 && segment != seq!['.'] && segment != seq!['.', '.']
}

fn plain_segment(segment: &str) -> (r: bool)
    ensures
        r == is_plain_segment(segment@),
{
    let chars = chars_of(segment);
    if chars.len() == 0 {
        return false;
    }
    if chars.len() == 1 && chars[0] == '.' {
        assert(segment@ =~= seq!['.']);
        return false;
    }
    if chars.len() == 2 && chars[0] == '.' && chars[1] == '.' {
        assert(segment@ =~= seq!['.', '.']);
        return false;
    }
    true
}

/// Whether a path stays below the directory that it is taken relative to: it is
/// not rooted and each of its segments names an entry.
pub open spec fn is_contained(path: Seq<char>) -> bool {
    forall|i: int| 0 <= i < segments(path).len() ==> is_plain_segment(#[trigger] segments(path)[i])
}

/// A relative path that stays below the directory that it is taken relative to.
#[derive(Debug)]
pub struct ValidatedRelativePath {
    path: String,
}

impl ValidatedRelativePath {
    /// The text of the path.
    pub closed spec fn text(self) -> Seq<char> {
        self.path@
    }

    #[verifier::type_invariant]
    spec fn contained(self) -> bool {
        is_contained(self.path@)
    }

    /// Accepts the path where it is contained.
    pub fn new(path: &str) -> (r: Option<Self>)
        ensures
            r is Some == is_contained(path@),
            r is Some ==> r->0.text() == path@,
    {
        if is_contained_path(path) {
            let text: String = path.to_owned();
            Some(ValidatedRelativePath { path: text })
        } else {
            None
        }
    }

    /// The text of the path.
    pub fn as_str(&self) -> (r: &str)
        ensures
            r@ == self.text(),
            is_contained(r@),
    {
        proof {
            use_type_invariant(self);
        }
        self.path.as_str()
    }

    /// Whether the path has one segment only.
    pub fn is_single_component(&self) -> (r: bool)
        ensures
            r == (segments(self.text()).len() == 1),
    {
        let parts = split_segments(self.path.as_str());
        assert(views(parts@).len() == parts@.len());
        parts.len() == 1
    }
}

/// Whether a path is contained.
pub fn is_contained_path(path: &str) -> (r: bool)
    ensures
        r == is_contained(path@),
{
    let parts = split_segments(path);
    let mut i: usize = 0;
    assert(views(parts@).len() == parts@.len());
    while i < parts.len()
        invariant
            i <= parts@.len(),
            views(parts@) == segments(path@),
            views(parts@).len() == parts@.len(),
            forall|k: int| 0 <= k < i ==> is_plain_segment(#[trigger] segments(path@)[k]),
        decreases parts@.len() - i,
    {
        if !plain_segment(parts[i].as_str()) {
            assert(segments(path@)[i as int] == parts@[i as int]@);
            return false;
        }
        assert(segments(path@)[i as int] == parts@[i as int]@);
        i = i + 1;
    }
    true
}

/// Whether a name can be that of an application: one plain segment, so that what belongs to
/// the application stays in a directory of its own. What else the manifest of a bundle asks of
/// such a name is left to the reader of bundles.
pub open spec fn is_app_name(name: Seq<char>) -> bool {
    is_contained(name) && segments(name).len() == 1
}

/// Whether a name can be that of an application.
pub fn is_valid_app_name(name: &str) -> (r: bool)
    ensures
        r == is_app_name(name@),
{
    match ValidatedRelativePath::new(name) {
        Some(path) => path.is_single_component(),
        None => false,
    }
}

/// A path with a slash at its front is not contained.
pub proof fn law_contained_is_relative(path: Seq<char>)
    requires
        is_contained(path),
    ensures
        path.len() > 0,
        !is_rooted(path),
{
    if path.len() == 0 {
        assert(segments(path)[0] == Seq::<char>::empty());
    }
    if is_rooted(path) {
        lemma_first_segment_empty(path);
        assert(!is_plain_segment(segments(path)[0]));
    }
}

proof fn lemma_first_segment_empty(path: Seq<char>)
    requires
        is_rooted(path),
    ensures
        segments(path).len() > 1,
        segments(path)[0] == Seq::<char>::empty(),
    decreases path.len(),
{
    if path.len() == 1 {
        assert(path.drop_last() =~= Seq::empty());
        assert(segments(path.drop_last())[0] == Seq::<char>::empty());
    } else {
        lemma_first_segment_empty(path.drop_last());
    }
}

/// Joined to a rooted or relative base, a contained path stays below the base:
/// the result begins with the base and has every segment of the path.
pub proof fn law_contained_path_is_below_base(base: Seq<char>, path: Seq<char>)
    requires
        is_contained(path),
        base.len() > 0,
    ensures
        has_prefix(path_join(base, path), base),
        path_join(base, path).len() > base.len(),
{
    law_contained_is_relative(path);
    assert(path_join(base, path).take(base.len() as int) =~= base);
}

/// The segments of a path that count: empty ones and dots after the first are
/// passed over.
pub open spec fn counted_segments(path: Seq<char>) -> Seq<Seq<char>> {
    counted(segments(path), segments(path).len())
}

/// The first `n` segments, without the ones that are passed over.
pub open spec fn counted(all: Seq<Seq<char>>, n: nat) -> Seq<Seq<char>>
    decreases n,
{
    if n == 0 {
        Seq::empty()
    } else {
        let i = n - 1;
        let rest = counted(all, i as nat);
        if all[i].len() == 0 || (i > 0 && all[i] == seq!['.']) {
            rest
        } else {
            rest.push(all[i])
        }
    }
}

/// The segments of a path that count.
pub fn components(path: &str) -> (r: Vec<String>)
    ensures
        views(r@) == counted_segments(path@),
{
    let parts = split_segments(path);
    let ghost all = segments(path@);
    let mut r: Vec<String> = Vec::new();
    let mut i: usize = 0;
    assert(all.len() == parts@.len());
    while i < parts.len()
        invariant
            i <= parts@.len(),
            all == segments(path@),
            all == views(parts@),
            all.len() == parts@.len(),
            views(r@) == counted(all, i as nat),
        decreases parts@.len() - i,
    {
        let chars = chars_of(parts[i].as_str());
        assert(all[i as int] == parts@[i as int]@);
        let dot = chars.len() == 1 && chars[0] == '.';
        assert(dot == (all[i as int] == seq!['.'])) by {
            if dot {
                assert(all[i as int] =~= seq!['.']);
            }
        }
        if !(chars.len() == 0 || (i > 0 && dot)) {
            let ghost before = views(r@);
            r.push(parts[i].clone());
            assert(views(r@) =~= before.push(all[i as int]));
        }
        i = i + 1;
    }
    r
}

/// The text after the last dot of a file name, unless the name starts with it.
pub open spec fn name_extension(name: Seq<char>) -> Option<Seq<char>> {
    if name == seq!['.', '.'] {
        None
    } else {
        extension_before(name, name.len())
    }
}

/// The extension of a name, looking for its dot before position `n` only.
pub open spec fn extension_before(name: Seq<char>, n: nat) -> Option<Seq<char>>
    decreases n,
{
    if n == 0 {
        None
    } else if name[n - 1] == '.' {
        if n == 1 {
            None
        } else {
            Some(name.skip(n as int))
        }
    } else {
        extension_before(name, (n - 1) as nat)
    }
}

/// The extension of the file that a path names.
pub open spec fn path_extension(path: Seq<char>) -> Option<Seq<char>> {
    let parts = counted_segments(path);
    if parts.len() == 0 || parts.last() == seq!['.'] {
        None
    } else {
        name_extension(parts.last())
    }
}

/// The extension of the file that a path names.
pub fn extension(path: &str) -> (r: Option<String>)
    ensures
        r is Some == path_extension(path@) is Some,
        r is Some ==> r->0@ == path_extension(path@)->0,
{
    let parts = components(path);
    assert(views(parts@).len() == parts@.len());
    if parts.len() == 0 {
        return None;
    }
    let name = &parts[parts.len() - 1];
    assert(views(parts@).last() == name@);
    let chars = chars_of(name.as_str());
    if chars.len() == 1 && chars[0] == '.' {
        assert(name@ =~= seq!['.']);
        return None;
    }
    if chars.len() == 2 && chars[0] == '.' && chars[1] == '.' {
        assert(name@ =~= seq!['.', '.']);
        return None;
    }
    let mut n: usize = chars.len();
    while n > 0
        invariant
            n <= chars@.len(),
            chars@ == name@,
            extension_before(name@, n as nat) == extension_before(name@, name@.len()),
            path_extension(path@) == extension_before(name@, name@.len()),
        decreases n,
    {
        if chars[n - 1] == '.' {
            if n == 1 {
                return None;
            }
            let rest = string_of_range(&chars, n, chars.len());
            assert(rest@ =~= name@.skip(n as int));
            return Some(rest);
        }
        n = n - 1;
    }
    None
}

/// Whether a path names a component file by its extension.
pub open spec fn names_component_file(path: Seq<char>) -> bool {
    match path_extension(path) {
        Some(extension) => ascii_lowered(extension) == ascii_lowered("toml"@) || ascii_lowered(
            extension,
        ) == ascii_lowered("json"@),
        None => false,
    }
}

/// Whether a path names a component file by its extension.
pub fn is_component_file(path: &str) -> (r: bool)
    ensures
        r == names_component_file(path@),
{
    match extension(path) {
        Some(extension) => eq_ignore_ascii_case(extension.as_str(), "toml")
            || eq_ignore_ascii_case(extension.as_str(), "json"),
        None => false,
    }
}

/// The path without the slashes and the segments `.` that it begins with.
pub open spec fn trimmed_front(path: Seq<char>) -> Seq<char>
    decreases path.len(),
{
    if path.len() > 0 && path[0] == '/' {
        trimmed_front(path.skip(1))
    } else if path == seq!['.'] {
        Seq::empty()
    } else if path.len() > 1 && path[0] == '.' && path[1] == '/' {
        trimmed_front(path.skip(2))
    } else {
        path
    }
}

/// The path without the slashes and the segments `.` that it ends with.
pub open spec fn trimmed_back(path: Seq<char>) -> Seq<char>
    decreases path.len(),
{
    if path.len() > 0 && path.last() == '/' {
        trimmed_back(path.take(path.len() - 1))
    } else if path.len() > 1 && path.last() == '.' && path[path.len() - 2] == '/' {
        trimmed_back(path.take(path.len() - 2))
    } else {
        path
    }
}

/// The path relative to the root, where it starts there.
pub open spec fn without_root(path: Seq<char>) -> Seq<char> {
    if is_rooted(path) {
        trimmed_back(trimmed_front(path))
    } else {
        path
    }
}

/// Strips the root from a path.
pub fn path_strip_root(path: &str) -> (r: String)
    ensures
        r@ == without_root(path@),
{
    let chars = chars_of(path);
    let count: usize = chars.len();
    if count == 0 || chars[0] != '/' {
        return path.to_owned();
    }
    let mut from: usize = 0;
    assert(path@.skip(0) =~= path@);
    let mut more = true;
    while more
        invariant
            from <= count == chars@.len(),
            chars@ == path@,
            more ==> trimmed_front(path@) == trimmed_front(path@.skip(from as int)),
            !more ==> trimmed_front(path@) == path@.skip(from as int),
        decreases count - from + if more { 1int } else { 0 },
    {
        let ghost rest = path@.skip(from as int);
        if from < count && chars[from] == '/' {
            assert(rest.skip(1) =~= path@.skip(from + 1));
            from = from + 1;
        } else if from < count && from + 1 == count && chars[from] == '.' {
            assert(rest =~= seq!['.']);
            assert(path@.skip(count as int) =~= Seq::empty());
            from = count;
            more = false;
        } else if from < count && from + 1 < count && chars[from] == '.' && chars[from + 1] == '/' {
            assert(rest.skip(2) =~= path@.skip(from + 2));
            from = from + 2;
        } else {
            assert(rest != seq!['.']) by {
                if rest == seq!['.'] {
                    assert(rest.len() == 1);
                    assert(rest[0] == path@[from as int]);
                }
            }
            more = false;
        }
    }
    let ghost front = path@.skip(from as int);
    let mut to: usize = count;
    assert(front.take(front.len() as int) =~= front);
    let mut again = true;
    while again
        invariant
            from <= to <= count == chars@.len(),
            chars@ == path@,
            front == path@.skip(from as int),
            again ==> trimmed_back(front) == trimmed_back(front.take(to - from)),
            !again ==> trimmed_back(front) == front.take(to - from),
        decreases to - from + if again { 1int } else { 0 },
    {
        let ghost rest = front.take(to - from);
        if to > from && chars[to - 1] == '/' {
            assert(rest.take(rest.len() - 1) =~= front.take(to - from - 1));
            to = to - 1;
        } else if to - from > 1 && chars[to - 1] == '.' && chars[to - 2] == '/' {
            assert(rest.take(rest.len() - 2) =~= front.take(to - from - 2));
            to = to - 2;
        } else {
            again = false;
        }
    }
    let r = string_of_range(&chars, from, to);
    assert(r@ =~= front.take(to - from));
    r
}

/// Whether a path lies at or beneath another one, segment by segment.
pub open spec fn is_beneath(path: Seq<char>, base: Seq<char>) -> bool {
    let p = counted_segments(path);
    let b = counted_segments(base);
    is_rooted(path) == is_rooted(base) && b.len() <= p.len() && p.take(b.len() as int) == b
}

/// Whether a path lies at or beneath another one.
pub fn starts_with(path: &str, base: &str) -> (r: bool)
    ensures
        r == is_beneath(path@, base@),
{
    let p = components(path);
    let b = components(base);
    let ghost pv = counted_segments(path@);
    let ghost bv = counted_segments(base@);
    assert(pv.len() == p@.len());
    assert(bv.len() == b@.len());
    if is_absolute(path) != is_absolute(base) || b.len() > p.len() {
        return false;
    }
    let mut i: usize = 0;
    while i < b.len()
        invariant
            i <= b@.len() <= p@.len(),
            pv == views(p@),
            bv == views(b@),
            pv == counted_segments(path@),
            bv == counted_segments(base@),
            pv.len() == p@.len(),
            bv.len() == b@.len(),
            forall|k: int| 0 <= k < i ==> pv[k] == bv[k],
        decreases b@.len() - i,
    {
        assert(pv[i as int] == p@[i as int]@);
        assert(bv[i as int] == b@[i as int]@);
        if !same(p[i].as_str(), b[i].as_str()) {
            assert(pv.take(bv.len() as int)[i as int] != bv[i as int]);
            return false;
        }
        i = i + 1;
    }
    assert(pv.take(bv.len() as int) =~= bv);
    true
}

/// Whether a position is that of the last dot of a name.
pub open spec fn is_last_dot(name: Seq<char>, k: int) -> bool {
    &&& 0 <= k < name.len()
    &&& name[k] == '.'
    &&& forall|j: int| k < j < name.len() ==> #[trigger] name[j] != '.'
}

proof fn lemma_extension_before(name: Seq<char>, n: nat)
    requires
        n <= name.len(),
        forall|j: int| n <= j < name.len() ==> #[trigger] name[j] != '.',
    ensures
        match extension_before(name, n) {
            Some(extension) => exists|k: int|
                #[trigger] is_last_dot(name, k) && k > 0 && extension == name.skip(k + 1),
            None => forall|k: int| #[trigger] is_last_dot(name, k) ==> k == 0,
        },
    decreases n,
{
    if n > 0 {
        if name[n - 1] == '.' {
            assert(is_last_dot(name, n - 1));
            assert forall|k: int| #[trigger] is_last_dot(name, k) implies k == n - 1 by {
                if k < n - 1 {
                    assert(name[n - 1] != '.');
                } else if k > n - 1 {
                    assert(name[k] != '.');
                }
            }
        } else {
            lemma_extension_before(name, (n - 1) as nat);
        }
    } else {
        assert forall|k: int| !#[trigger] is_last_dot(name, k) by {
            if is_last_dot(name, k) {
                assert(name[k] != '.');
            }
        }
    }
}

/// The extension of a name is what follows its last dot. There is none without a dot, where
/// the only one is at the front, and where the name is made of two dots.
pub proof fn law_extension_follows_the_last_dot(name: Seq<char>)
    ensures
        match name_extension(name) {
            Some(extension) => name != seq!['.', '.'] && exists|k: int|
                #[trigger] is_last_dot(name, k) && k > 0 && extension == name.skip(k + 1),
            None => name == seq!['.', '.'] || forall|k: int|
                #[trigger] is_last_dot(name, k) ==> k == 0,
        },
{
    lemma_extension_before(name, name.len());
}

proof fn lemma_counted(all: Seq<Seq<char>>, n: nat, x: Seq<char>)
    requires
        n <= all.len(),
    ensures
        counted(all, n).contains(x) <==> exists|i: int|
            0 <= i < n && #[trigger] all[i] == x && x.len() > 0 && (i == 0 || x != seq!['.']),
    decreases n,
{
    if n > 0 {
        let m = (n - 1) as nat;
        lemma_counted(all, m, x);
        let before = counted(all, m);
        let now = counted(all, n);
        if before.contains(x) {
            let k = choose|k: int| 0 <= k < before.len() && before[k] == x;
            assert(now[k] == x);
        }
        if now.contains(x) {
            let k = choose|k: int| 0 <= k < now.len() && now[k] == x;
            if k < before.len() {
                assert(before[k] == x);
            } else {
                assert(all[n - 1] == x);
            }
        }
        if all[n - 1] == x && x.len() > 0 && (m == 0 || x != seq!['.']) {
            assert(now[before.len() as int] == x);
        }
    }
}

/// Every segment of a path counts that is not empty, but for dots after the first segment.
pub proof fn law_segments_count_unless_passed_over(path: Seq<char>, x: Seq<char>)
    ensures
        counted_segments(path).contains(x) <==> exists|i: int|
            0 <= i < segments(path).len() && #[trigger] segments(path)[i] == x && x.len() > 0 && (i
                == 0 || x != seq!['.']),
{
    lemma_counted(segments(path), segments(path).len(), x);
}

proof fn lemma_trimmed_front(path: Seq<char>)
    ensures
        !is_rooted(trimmed_front(path)),
    decreases path.len(),
{
    if path.len() > 0 && path[0] == '/' {
        lemma_trimmed_front(path.skip(1));
    } else if path == seq!['.'] {
    } else if path.len() > 1 && path[0] == '.' && path[1] == '/' {
        lemma_trimmed_front(path.skip(2));
    }
}

proof fn lemma_trimmed_back(path: Seq<char>)
    requires
        !is_rooted(path),
    ensures
        !is_rooted(trimmed_back(path)),
        trimmed_back(path).is_prefix_of(path),
    decreases path.len(),
{
    if path.len() > 0 && path.last() == '/' {
        lemma_trimmed_back(path.take(path.len() - 1));
    } else if path.len() > 1 && path.last() == '.' && path[path.len() - 2] == '/' {
        lemma_trimmed_back(path.take(path.len() - 2));
    }
}

/// Without the root a path is relative, and one that is relative stays as it is.
pub proof fn law_path_without_root_is_relative(path: Seq<char>)
    ensures
        !is_rooted(without_root(path)),
        !is_rooted(path) ==> without_root(path) == path,
{
    if is_rooted(path) {
        lemma_trimmed_front(path);
        lemma_trimmed_back(trimmed_front(path));
    }
}

/// A relative path joined to a base begins with the base and ends with the path, with one
/// slash between them where the base does not end in one. A rooted path stays as it is.
pub proof fn law_joined_path_is_below_the_base(base: Seq<char>, rest: Seq<char>)
    ensures
        is_rooted(rest) ==> path_join(base, rest) == rest,
        !is_rooted(rest) ==> ({
            let all = path_join(base, rest);
            let gap = all.len() - base.len() - rest.len();
            &&& base.is_prefix_of(all)
            &&& rest.is_suffix_of(all)
            &&& gap == 0 <==> base.len() == 0 || base.last() == '/'
            &&& gap == 0 || gap == 1 && all[base.len() as int] == '/'
        }),
{
    if !is_rooted(rest) {
        let all = path_join(base, rest);
        assert(all.subrange(all.len() - rest.len(), all.len() as int) =~= rest);
    }
}

} // verus!
