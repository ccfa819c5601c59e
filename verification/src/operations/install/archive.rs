//! Checks on the archive of an application before it is unpacked.

use vstd::prelude::*;
use crate::path::{is_contained, is_contained_path};
use crate::text::{chars_of, has_prefix, same, strip_prefix};

verus! {

/// A text of an archive entry.
#[derive(Debug)]
pub enum ArchiveText {
    /// It is not there.
    Missing,
    /// It is not UTF-8.
    NotUtf8,
    Text(String),
}

/// An entry of an archive.
#[derive(Debug)]
pub enum ArchiveEntry {
    /// The archive cannot be read any further.
    Unreadable,
    /// A file, directory or the like.
    Plain { path: ArchiveText },
    /// A symbolic or hard link.
    Link { path: ArchiveText, target: ArchiveText },
}

/// The content of a text of an archive entry.
pub enum ArchiveTextView {
    Missing,
    NotUtf8,
    Text(Seq<char>),
}

/// The content of an archive entry.
pub enum ArchiveEntryView {
    Unreadable,
    Plain { path: ArchiveTextView },
    Link { path: ArchiveTextView, target: ArchiveTextView },
}

impl View for ArchiveText {
    type V = ArchiveTextView;

    open spec fn view(&self) -> ArchiveTextView {
        match self {
            ArchiveText::Missing => ArchiveTextView::Missing,
            ArchiveText::NotUtf8 => ArchiveTextView::NotUtf8,
            ArchiveText::Text(s) => ArchiveTextView::Text(s@),
        }
    }
}

impl View for ArchiveEntry {
    type V = ArchiveEntryView;

    open spec fn view(&self) -> ArchiveEntryView {
        match self {
            ArchiveEntry::Unreadable => ArchiveEntryView::Unreadable,
            ArchiveEntry::Plain { path } => ArchiveEntryView::Plain { path: path@ },
            ArchiveEntry::Link { path, target } => ArchiveEntryView::Link {
                path: path@,
                target: target@,
            },
        }
    }
}

/// The contents of archive entries.
pub open spec fn entry_views(entries: Seq<ArchiveEntry>) -> Seq<ArchiveEntryView> {
    entries.map_values(|entry: ArchiveEntry| entry@)
}

/// What a tar archive says of an entry: the byte of its type, its path and its link target.
pub type RawEntry = (u8, ArchiveText, ArchiveText);

/// The content of what a tar archive says of an entry.
pub type RawEntryView = (u8, ArchiveTextView, ArchiveTextView);

/// The contents of what a tar archive says of its entries.
pub open spec fn raw_views(entries: Seq<Option<RawEntry>>) -> Seq<Option<RawEntryView>> {
    entries.map_values(
        |entry: Option<RawEntry>|
            match entry {
                Some(entry) => Some((entry.0, entry.1@, entry.2@)),
                None => None,
            },
    )
}

/// The entries of the tar archive that bytes hold; one that cannot be read is not there.
pub uninterp spec fn tar_entries(bytes: Seq<u8>) -> Seq<Option<RawEntryView>>;

/// `tar::Archive::entries`: the entries of the archive in its order, named and not
/// described. Of each entry, `tar::EntryType::as_byte` gives the byte of its type,
/// `tar::Entry::path` the path and `tar::Entry::link_name` the link target.
#[verifier::external_body]
fn read_tar_entries(bytes: &[u8]) -> (r: Vec<Option<RawEntry>>)
    ensures
        raw_views(r@) == tar_entries(bytes@),
{
    let text = |path: Option<std::borrow::Cow<'_, std::path::Path>>| match path {
        Some(path) => path.to_str().map_or(ArchiveText::NotUtf8, |s| ArchiveText::Text(s.to_owned())),
        None => ArchiveText::Missing,
    };
    let mut archive = tar::Archive::new(bytes);
    let Ok(entries) = archive.entries() else { return vec![None] };
    entries.map(|entry| entry.ok().map(|entry| {
        let kind = entry.header().entry_type().as_byte();
        (kind, text(entry.path().ok()), text(entry.link_name().ok().flatten()))
    })).collect()
}

/// What an entry is: hard links are of type `1`, symbolic links of type `2`.
pub open spec fn classified(entry: Option<RawEntryView>) -> ArchiveEntryView {
    match entry {
        Some((kind, path, target)) => if kind == 0x31 || kind == 0x32 {
            ArchiveEntryView::Link { path, target }
        } else {
            ArchiveEntryView::Plain { path }
        },
        None => ArchiveEntryView::Unreadable,
    }
}

/// The entries of the archive of an application.
pub open spec fn archive_entries(bytes: Seq<u8>) -> Seq<ArchiveEntryView> {
    tar_entries(bytes).map_values(|entry: Option<RawEntryView>| classified(entry))
}

fn copy_text(text: &ArchiveText) -> (r: ArchiveText)
    ensures
        r@ == text@,
{
    match text {
        ArchiveText::Missing => ArchiveText::Missing,
        ArchiveText::NotUtf8 => ArchiveText::NotUtf8,
        ArchiveText::Text(s) => ArchiveText::Text(s.as_str().to_owned()),
    }
}

/// Tells links from other entries.
pub fn classify_entries(raw: &Vec<Option<RawEntry>>) -> (r: Vec<ArchiveEntry>)
    ensures
        entry_views(r@) == raw_views(raw@).map_values(
            |entry: Option<RawEntryView>| classified(entry),
        ),
{
    let mut r: Vec<ArchiveEntry> = Vec::new();
    let mut i: usize = 0;
    while i < raw.len()
        invariant
            i <= raw@.len(),
            r@.len() == i,
            forall|k: int| 0 <= k < i ==> (#[trigger] r@[k])@ == classified(raw_views(raw@)[k]),
        decreases raw@.len() - i,
    {
        let entry = match &raw[i] {
            Some((kind, path, target)) => if *kind == 0x31 || *kind == 0x32 {
                ArchiveEntry::Link { path: copy_text(path), target: copy_text(target) }
            } else {
                ArchiveEntry::Plain { path: copy_text(path) }
            },
            None => ArchiveEntry::Unreadable,
        };
        r.push(entry);
        i = i + 1;
    }
    assert(entry_views(r@) =~= raw_views(raw@).map_values(
        |entry: Option<RawEntryView>| classified(entry),
    ));
    r
}

/// Why an archive is not unpacked.
#[derive(Debug, Clone, Copy, PartialEq, Eq, Structural)]
pub enum ArchiveError {
    /// The entry cannot be read.
    Unreadable { entry: usize },
    /// The path of the entry is not UTF-8.
    PathText { entry: usize },
    /// The path of the entry leaves the archive.
    InvalidPath { entry: usize },
    /// The path of the entry occurs before.
    DuplicatePath { entry: usize },
    /// The link has no target.
    NoTarget { entry: usize },
    /// The target of the link is not UTF-8.
    TargetText { entry: usize },
    /// The target of the link leaves the archive.
    InvalidTarget { entry: usize },
    /// The path of the entry lies beneath a link.
    BeneathLink { entry: usize },
}

/// The path of an entry.
pub open spec fn entry_path(entry: ArchiveEntryView) -> ArchiveTextView {
    match entry {
        ArchiveEntryView::Unreadable => ArchiveTextView::Missing,
        ArchiveEntryView::Plain { path } => path,
        ArchiveEntryView::Link { path, .. } => path,
    }
}

/// What is wrong with an entry, if anything, given the entries before it.
pub open spec fn entry_error(entries: Seq<ArchiveEntryView>, i: int) -> Option<ArchiveError> {
    let entry = i as usize;
    if entries[i] is Unreadable {
        Some(ArchiveError::Unreadable { entry })
    } else {
        match entry_path(entries[i]) {
            ArchiveTextView::Missing => Some(ArchiveError::PathText { entry }),
            ArchiveTextView::NotUtf8 => Some(ArchiveError::PathText { entry }),
            ArchiveTextView::Text(path) => if !is_contained(path) {
                Some(ArchiveError::InvalidPath { entry })
            } else if exists|k: int|
                0 <= k < i && entry_path(#[trigger] entries[k]) == ArchiveTextView::Text(path) {
                Some(ArchiveError::DuplicatePath { entry })
            } else {
                match entries[i] {
                    ArchiveEntryView::Link { target, .. } => match target {
                        ArchiveTextView::Missing => Some(ArchiveError::NoTarget { entry }),
                        ArchiveTextView::NotUtf8 => Some(ArchiveError::TargetText { entry }),
                        ArchiveTextView::Text(target) => if !is_contained(target) {
                            Some(ArchiveError::InvalidTarget { entry })
                        } else {
                            None
                        },
                    },
                    _ => None,
                }
            },
        }
    }
}

/// Whether a path lies strictly beneath another one.
pub open spec fn lies_beneath(path: Seq<char>, link: Seq<char>) -> bool {
    has_prefix(path, link) && path.len() > link.len() && path[link.len() as int] == '/'
}

/// Whether the path of an entry lies beneath a link of the archive.
pub open spec fn is_redirected(entries: Seq<ArchiveEntryView>, i: int) -> bool {
    entry_path(entries[i]) matches ArchiveTextView::Text(path) && exists|k: int|
        0 <= k < entries.len() && (#[trigger] entries[k]) is Link && (entry_path(
            entries[k],
        ) matches ArchiveTextView::Text(link) && lies_beneath(path, link))
}

/// Whether an archive can be unpacked: every entry is sound, and none lies beneath
/// a link.
pub open spec fn is_sound_archive(entries: Seq<ArchiveEntryView>) -> bool {
    &&& forall|i: int| 0 <= i < entries.len() ==> entry_error(entries, i) is None
    &&& forall|i: int| 0 <= i < entries.len() ==> !is_redirected(entries, i)
}

/// Whether `e` is the first thing that is wrong with an archive.
pub open spec fn is_first_error(entries: Seq<ArchiveEntryView>, e: ArchiveError) -> bool {
    (exists|i: int|
        #![trigger entry_error(entries, i)]
        0 <= i < entries.len() && entry_error(entries, i) == Some(e) && forall|k: int|
            0 <= k < i ==> entry_error(entries, k) is None) || ((forall|i: int|
        0 <= i < entries.len() ==> entry_error(entries, i) is None) && exists|i: int|
        #![trigger is_redirected(entries, i)]
        0 <= i < entries.len() && is_redirected(entries, i) && e == (ArchiveError::BeneathLink {
            entry: i as usize,
        }) && forall|k: int| 0 <= k < i ==> !is_redirected(entries, k))
}

fn beneath(path: &str, link: &str) -> (r: bool)
    ensures
        r == lies_beneath(path@, link@),
{
    match strip_prefix(path, link) {
        Some(rest) => {
            let chars = chars_of(rest.as_str());
            assert(chars.len() > 0 ==> chars@[0] == path@[link@.len() as int]);
            chars.len() > 0 && chars[0] == '/'
        },
        None => false,
    }
}

fn text_of(entry: &ArchiveEntry) -> (r: Option<&String>)
    ensures
        match r {
            Some(s) => entry_path(entry@) == ArchiveTextView::Text(s@),
            None => entry_path(entry@) !is Text,
        },
{
    match entry {
        ArchiveEntry::Unreadable => None,
        ArchiveEntry::Plain { path } => match path {
            ArchiveText::Text(s) => Some(s),
            _ => None,
        },
        ArchiveEntry::Link { path, .. } => match path {
            ArchiveText::Text(s) => Some(s),
            _ => None,
        },
    }
}

fn check_entry(entries: &Vec<ArchiveEntry>, i: usize) -> (r: Option<ArchiveError>)
    requires
        i < entries@.len(),
    ensures
        r == entry_error(entry_views(entries@), i as int),
{
    let ghost all = entry_views(entries@);
    assert(all[i as int] == entries@[i as int]@);
    match &entries[i] {
        ArchiveEntry::Unreadable => return Some(ArchiveError::Unreadable { entry: i }),
        _ => {},
    }
    let path = match text_of(&entries[i]) {
        Some(path) => path,
        None => return Some(ArchiveError::PathText { entry: i }),
    };
    if !is_contained_path(path.as_str()) {
        return Some(ArchiveError::InvalidPath { entry: i });
    }
    let mut k: usize = 0;
    while k < i
        invariant
            k <= i < entries@.len(),
            all == entry_views(entries@),
            forall|j: int|
                0 <= j < k ==> entry_path(#[trigger] all[j]) != ArchiveTextView::Text(path@),
            entry_path(all[i as int]) == ArchiveTextView::Text(path@),
            is_contained(path@),
            all[i as int] !is Unreadable,
        decreases i - k,
    {
        assert(all[k as int] == entries@[k as int]@);
        if let Some(other) = text_of(&entries[k]) {
            if same(other.as_str(), path.as_str()) {
                return Some(ArchiveError::DuplicatePath { entry: i });
            }
        }
        k = k + 1;
    }
    match &entries[i] {
        ArchiveEntry::Link { target, .. } => match target {
            ArchiveText::Missing => Some(ArchiveError::NoTarget { entry: i }),
            ArchiveText::NotUtf8 => Some(ArchiveError::TargetText { entry: i }),
            ArchiveText::Text(target) => if is_contained_path(target.as_str()) {
                None
            } else {
                Some(ArchiveError::InvalidTarget { entry: i })
            },
        },
        _ => None,
    }
}

fn redirected(entries: &Vec<ArchiveEntry>, i: usize) -> (r: bool)
    requires
        i < entries@.len(),
    ensures
        r == is_redirected(entry_views(entries@), i as int),
{
    let ghost all = entry_views(entries@);
    assert(all[i as int] == entries@[i as int]@);
    let path = match text_of(&entries[i]) {
        Some(path) => path,
        None => return false,
    };
    let mut k: usize = 0;
    while k < entries.len()
        invariant
            k <= entries@.len(),
            i < entries@.len(),
            all == entry_views(entries@),
            entry_path(all[i as int]) == ArchiveTextView::Text(path@),
            forall|j: int|
                0 <= j < k && (#[trigger] all[j]) is Link ==> !(entry_path(
                    all[j],
                ) matches ArchiveTextView::Text(link) && lies_beneath(path@, link)),
        decreases entries@.len() - k,
    {
        assert(all[k as int] == entries@[k as int]@);
        let is_link = match &entries[k] {
            ArchiveEntry::Link { .. } => true,
            _ => false,
        };
        if is_link {
            if let Some(link) = text_of(&entries[k]) {
                if beneath(path.as_str(), link.as_str()) {
                    assert(all[k as int] is Link);
                    return true;
                }
            }
        }
        k = k + 1;
    }
    false
}

/// Checks the entries of an archive.
pub fn validate_archive_entries(entries: &Vec<ArchiveEntry>) -> (r: Result<(), ArchiveError>)
    ensures
        r is Ok <==> is_sound_archive(entry_views(entries@)),
        r matches Err(e) ==> is_first_error(entry_views(entries@), e),
{
    let ghost all = entry_views(entries@);
    let mut i: usize = 0;
    while i < entries.len()
        invariant
            i <= entries@.len(),
            all == entry_views(entries@),
            forall|k: int| 0 <= k < i ==> entry_error(all, k) is None,
        decreases entries@.len() - i,
    {
        if let Some(e) = check_entry(entries, i) {
            assert(entry_error(all, i as int) == Some(e));
            return Err(e);
        }
        i = i + 1;
    }
    let mut j: usize = 0;
    while j < entries.len()
        invariant
            j <= entries@.len(),
            all == entry_views(entries@),
            forall|k: int| 0 <= k < entries@.len() ==> entry_error(all, k) is None,
            forall|k: int| 0 <= k < j ==> !is_redirected(all, k),
        decreases entries@.len() - j,
    {
        if redirected(entries, j) {
            assert(is_redirected(all, j as int));
            return Err(ArchiveError::BeneathLink { entry: j });
        }
        j = j + 1;
    }
    Ok(())
}

/// Checks the tar archive of an application: every path and every link target
/// stays below the directory that it is unpacked to, no path occurs twice, and
/// nothing is unpacked through a link.
pub fn validate_app_archive(bytes: &[u8]) -> (r: Result<(), ArchiveError>)
    ensures
        r is Ok <==> is_sound_archive(archive_entries(bytes@)),
        r matches Err(e) ==> is_first_error(archive_entries(bytes@), e),
{
    let raw = read_tar_entries(bytes);
    let entries = classify_entries(&raw);
    validate_archive_entries(&entries)
}

/// Nothing of a sound archive is unpacked outside of the directory that it is
/// unpacked to, nor through a link.
pub proof fn law_sound_archive_is_contained(entries: Seq<ArchiveEntryView>, i: int)
    requires
        is_sound_archive(entries),
        0 <= i < entries.len(),
    ensures
        entry_path(entries[i]) matches ArchiveTextView::Text(path) && is_contained(path)
            && forall|k: int|
            0 <= k < entries.len() && (#[trigger] entries[k]) is Link ==> !lies_beneath(
                path,
                entry_path(entries[k])->Text_0,
            ),
        entries[i] matches ArchiveEntryView::Link { target, .. } ==> (
        target matches ArchiveTextView::Text(t) && is_contained(t)),
{
    assert(entry_error(entries, i) is None);
    assert(!is_redirected(entries, i));
    let path = entry_path(entries[i])->Text_0;
    assert forall|k: int| 0 <= k < entries.len() && (#[trigger] entries[k]) is Link implies !lies_beneath(
        path,
        entry_path(entries[k])->Text_0,
    ) by {
        assert(entry_error(entries, k) is None);
    }
}

/// No two entries of a sound archive have the same path.
pub proof fn law_sound_archive_has_no_duplicates(entries: Seq<ArchiveEntryView>, i: int, j: int)
    requires
        is_sound_archive(entries),
        0 <= i < j < entries.len(),
    ensures
        entry_path(entries[i]) != entry_path(entries[j]),
{
    assert(entry_error(entries, j) is None);
    assert(entry_error(entries, i) is None);
    assert(entry_path(entries[i]) == entry_path(entries[i]));
}

/// Links are the entries of the types of hard and symbolic links, and every entry keeps its
/// path. What cannot be read is never taken for an entry.
pub proof fn law_links_are_told_from_other_entries(
    kind: u8,
    path: ArchiveTextView,
    target: ArchiveTextView,
)
    ensures
        ({
            let entry = classified(Some((kind, path, target)));
            &&& entry is Link <==> kind as char == '1' || kind as char == '2'
            &&& entry_path(entry) == path
            &&& entry matches ArchiveEntryView::Link { target: t, .. } ==> t == target
            &&& !(entry is Unreadable)
        }),
        classified(None) is Unreadable,
{
}

/// An archive is refused for a reason, which is one of the entry that is named.
pub proof fn law_archive_is_refused_for_a_reason(
    entries: Seq<ArchiveEntryView>,
    error: ArchiveError,
)
    requires
        is_first_error(entries, error),
        entries.len() <= usize::MAX,
    ensures
        ({
            let named = match error {
                ArchiveError::Unreadable { entry } => entry,
                ArchiveError::PathText { entry } => entry,
                ArchiveError::InvalidPath { entry } => entry,
                ArchiveError::DuplicatePath { entry } => entry,
                ArchiveError::NoTarget { entry } => entry,
                ArchiveError::TargetText { entry } => entry,
                ArchiveError::InvalidTarget { entry } => entry,
                ArchiveError::BeneathLink { entry } => entry,
            } as int;
            let entry = entries[named];
            let path = entry_path(entry);
            &&& 0 <= named < entries.len()
            &&& match error {
                ArchiveError::Unreadable { .. } => entry is Unreadable,
                ArchiveError::PathText { .. } => !(path is Text),
                ArchiveError::InvalidPath { .. } => path is Text && !is_contained(path->Text_0),
                ArchiveError::DuplicatePath { .. } => path is Text && exists|k: int|
                    0 <= k < named && entry_path(#[trigger] entries[k]) == path,
                ArchiveError::NoTarget { .. } => entry is Link && entry->target is Missing,
                ArchiveError::TargetText { .. } => entry is Link && entry->target is NotUtf8,
                ArchiveError::InvalidTarget { .. } => entry is Link && entry->target is Text
                    && !is_contained(entry->target->Text_0),
                ArchiveError::BeneathLink { .. } => is_redirected(entries, named),
            }
        }),
{
}

} // verus!
