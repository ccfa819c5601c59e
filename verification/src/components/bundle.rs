//! Components that a bundle declares.

use vstd::prelude::*;
use crate::components::{Component, ComponentView};
use crate::components::installed::pair_views;
use crate::order::{
    is_text_order, lemma_lists_all, lemma_text_total, lemma_text_transitive, precedes, text_lt, text_order,
};
use crate::path::{
    components as path_components, counted_segments, is_absolute, is_component_file, is_rooted,
    names_component_file,
};
use crate::text::{concat, join as join_texts, joined, same, views};

verus! {

/// A component file of a bundle.
#[derive(Debug)]
pub struct BundleComponentFile {
    pub path: String,
    pub data: Vec<u8>,
    /// The component that the data declares, or why it cannot be understood.
    pub component: Result<Component, String>,
}

/// Why a path cannot be that of a component file.
#[derive(Debug, Clone, Copy, PartialEq, Eq, Structural)]
pub enum ComponentPathError {
    /// Bundle component path must be relative.
    Absolute,
    /// Invalid bundle component path.
    Invalid,
    /// Unsupported bundle component file extension.
    UnsupportedExtension,
}

/// Why the components of a bundle are refused. Files are given by their position.
#[derive(Debug, PartialEq, Eq)]
pub enum BundleComponentsErrorOf<S> {
    Path { file: usize, error: ComponentPathError },
    /// Duplicate bundle component file path.
    Duplicate { file: usize },
    /// The file cannot be understood.
    Unreadable { file: usize, cause: S },
}

/// Why the components of a bundle are refused.
pub type BundleComponentsError = BundleComponentsErrorOf<String>;

/// Why the components of a bundle are refused, as the contracts speak of it.
pub type BundleComponentsErrorView = BundleComponentsErrorOf<Seq<char>>;

impl View for BundleComponentsErrorOf<String> {
    type V = BundleComponentsErrorView;

    open spec fn view(&self) -> BundleComponentsErrorView {
        match *self {
            BundleComponentsErrorOf::Path { file, error } => BundleComponentsErrorOf::Path {
                file,
                error,
            },
            BundleComponentsErrorOf::Duplicate { file } => BundleComponentsErrorOf::Duplicate {
                file,
            },
            BundleComponentsErrorOf::Unreadable { file, cause } => {
                BundleComponentsErrorOf::Unreadable { file, cause: cause@ }
            },
        }
    }
}

/// What is said of an error.
pub open spec fn error_text(error: BundleComponentsErrorView) -> Seq<char> {
    match error {
        BundleComponentsErrorOf::Path { error, .. } => match error {
            ComponentPathError::Absolute => "bundle component path must be relative"@,
            ComponentPathError::Invalid => "invalid bundle component path"@,
            ComponentPathError::UnsupportedExtension => "unsupported bundle component file extension"@,
        },
        BundleComponentsErrorOf::Duplicate { .. } => "duplicate bundle component file path"@,
        BundleComponentsErrorOf::Unreadable { cause, .. } => "unable to parse component file: "@
            + cause,
    }
}

impl BundleComponentsErrorOf<String> {
    /// What is said of the error.
    pub fn message(&self) -> (r: String)
        ensures
            r@ == error_text(self@),
    {
        let text = match self {
            BundleComponentsErrorOf::Path { error, .. } => match error {
                ComponentPathError::Absolute => "bundle component path must be relative",
                ComponentPathError::Invalid => "invalid bundle component path",
                ComponentPathError::UnsupportedExtension => "unsupported bundle component file extension",
            },
            BundleComponentsErrorOf::Duplicate { .. } => "duplicate bundle component file path",
            BundleComponentsErrorOf::Unreadable { cause, .. } => {
                return concat("unable to parse component file: ", cause.as_str());
            },
        };
        text.to_owned()
    }
}

/// Whether a segment leads out of where it stands, or nowhere.
pub open spec fn is_dots(segment: Seq<char>) -> bool {
    segment == "."@ || segment == ".."@
}

/// Why a path cannot be that of a component file, if it cannot.
pub open spec fn component_path_error(path: Seq<char>) -> Option<ComponentPathError> {
    let parts = counted_segments(path);
    if is_rooted(path) {
        Some(ComponentPathError::Absolute)
    } else if parts.len() == 0 || exists|i: int| 0 <= i < parts.len() && is_dots(#[trigger] parts[i]) {
        Some(ComponentPathError::Invalid)
    } else if !names_component_file(path) {
        Some(ComponentPathError::UnsupportedExtension)
    } else {
        None
    }
}

/// Checks the path of a component file.
pub fn validate_bundle_component_path(path: &str) -> (r: Result<(), ComponentPathError>)
    ensures
        r == match component_path_error(path@) {
            Some(e) => Err(e),
            None => Ok(()),
        },
{
    if is_absolute(path) {
        return Err(ComponentPathError::Absolute);
    }
    let parts = path_components(path);
    let ghost all = counted_segments(path@);
    assert(all.len() == parts@.len());
    let mut i: usize = 0;
    while i < parts.len()
        invariant
            i <= parts@.len(),
            !is_rooted(path@),
            all == counted_segments(path@),
            views(parts@) == all,
            all.len() == parts@.len(),
            forall|j: int| 0 <= j < i ==> !is_dots(#[trigger] all[j]),
        decreases parts@.len() - i,
    {
        assert(all[i as int] == parts@[i as int]@);
        if same(parts[i].as_str(), ".") || same(parts[i].as_str(), "..") {
            assert(is_dots(all[i as int]));
            return Err(ComponentPathError::Invalid);
        }
        i = i + 1;
    }
    if parts.len() == 0 {
        return Err(ComponentPathError::Invalid);
    }
    if !is_component_file(path) {
        return Err(ComponentPathError::UnsupportedExtension);
    }
    Ok(())
}

/// The paths of component files.
pub open spec fn file_paths(files: Seq<BundleComponentFile>) -> Seq<Seq<char>> {
    Seq::new(files.len(), |i: int| files[i].path@)
}

/// Why the file at position `k` of the order is refused, if it is: its path, a path that
/// came before, or its contents.
pub open spec fn file_error(
    files: Seq<BundleComponentFile>,
    order: Seq<usize>,
    k: int,
) -> Option<BundleComponentsErrorView> {
    let file = order[k];
    match component_path_error(files[file as int].path@) {
        Some(error) => Some(BundleComponentsErrorOf::Path { file, error }),
        None => if k > 0 && files[order[k - 1] as int].path@ == files[file as int].path@ {
            Some(BundleComponentsErrorOf::Duplicate { file })
        } else {
            match files[file as int].component {
                Ok(_) => None,
                Err(cause) => Some(BundleComponentsErrorOf::Unreadable { file, cause: cause@ }),
            }
        },
    }
}

/// The declarations of files in a given order.
pub open spec fn ordered(files: Seq<BundleComponentFile>, order: Seq<usize>) -> Seq<
    (Seq<char>, ComponentView),
> {
    Seq::new(
        order.len(),
        |k: int| (files[order[k] as int].path@, files[order[k] as int].component->Ok_0@),
    )
}

/// Whether no file is refused in this order.
pub open spec fn none_refused(files: Seq<BundleComponentFile>, order: Seq<usize>, n: int) -> bool {
    forall|k: int| 0 <= k < n ==> (#[trigger] file_error(files, order, k)) is None
}

/// Whether the declarations are those of the files in the order of their paths, none of
/// which is refused.
pub open spec fn sorted_declarations(
    files: Seq<BundleComponentFile>,
    declared: Seq<(Seq<char>, ComponentView)>,
) -> bool {
    exists|order: Seq<usize>|
        #[trigger] is_text_order(order, file_paths(files)) && none_refused(
            files,
            order,
            order.len() as int,
        ) && declared == ordered(files, order)
}

/// Whether this is the error of the first file, in the order of the paths, that is refused.
pub open spec fn declarations_error(
    files: Seq<BundleComponentFile>,
    error: BundleComponentsErrorView,
) -> bool {
    exists|order: Seq<usize>, k: int|
        #[trigger] is_text_order(order, file_paths(files)) && 0 <= k < order.len()
            && none_refused(files, order, k) && #[trigger] file_error(files, order, k) == Some(error)
}

fn order_files(files: &Vec<BundleComponentFile>) -> (r: Vec<usize>)
    ensures
        is_text_order(r@, file_paths(files@)),
{
    let mut paths: Vec<String> = Vec::new();
    let mut i: usize = 0;
    while i < files.len()
        invariant
            i <= files@.len(),
            paths@.len() == i,
            forall|j: int| 0 <= j < i ==> (#[trigger] paths@[j])@ == files@[j].path@,
        decreases files@.len() - i,
    {
        paths.push(files[i].path.clone());
        i = i + 1;
    }
    assert(views(paths@) =~= file_paths(files@));
    text_order(&paths)
}

/// Reads the components that a bundle declares, in the order of their paths. Two files with
/// the same path are next to each other in that order.
pub fn read_bundle_components(files: &Vec<BundleComponentFile>) -> (r: Result<
    Vec<(String, Component)>,
    BundleComponentsError,
>)
    ensures
        match r {
            Ok(declared) => sorted_declarations(files@, pair_views(declared@)),
            Err(e) => declarations_error(files@, e@),
        },
{
    let order = order_files(files);
    let mut declared: Vec<(String, Component)> = Vec::new();
    let mut k: usize = 0;
    while k < order.len()
        invariant
            k <= order@.len(),
            is_text_order(order@, file_paths(files@)),
            none_refused(files@, order@, k as int),
            declared@.len() == k,
            forall|j: int|
                0 <= j < k ==> ((#[trigger] declared@[j]).0@, declared@[j].1@) == ordered(
                    files@,
                    order@,
                )[j],
        decreases order@.len() - k,
    {
        let i: usize = order[k];
        assert(i < files@.len());
        let file = &files[i];
        if let Err(error) = validate_bundle_component_path(file.path.as_str()) {
            let e = BundleComponentsError::Path { file: i, error };
            assert(file_error(files@, order@, k as int) == Some(e@));
            return Err(e);
        }
        if k > 0 {
            let before: usize = order[k - 1];
            assert(before < files@.len());
            if same(files[before].path.as_str(), file.path.as_str()) {
                let e = BundleComponentsError::Duplicate { file: i };
                assert(file_error(files@, order@, k as int) == Some(e@));
                return Err(e);
            }
        }
        match &file.component {
            Ok(component) => {
                declared.push((file.path.clone(), component.copy()));
            },
            Err(cause) => {
                let e = BundleComponentsError::Unreadable { file: i, cause: cause.clone() };
                assert(file_error(files@, order@, k as int) == Some(e@));
                return Err(e);
            },
        }
        assert(file_error(files@, order@, k as int) is None);
        k = k + 1;
    }
    assert(pair_views(declared@) =~= ordered(files@, order@));
    Ok(declared)
}

/// Validate bundle-declared component metadata.
pub fn validate_bundle_components(files: &Vec<BundleComponentFile>) -> (r: Result<
    (),
    BundleComponentsError,
>)
    ensures
        match r {
            Ok(_) => exists|declared: Seq<(Seq<char>, ComponentView)>|
                sorted_declarations(files@, declared),
            Err(e) => declarations_error(files@, e@),
        },
{
    match read_bundle_components(files) {
        Ok(declared) => {
            assert(sorted_declarations(files@, pair_views(declared@)));
            Ok(())
        },
        Err(e) => Err(e),
    }
}

/// In the order of the paths, equal paths are next to each other: where no file has the
/// path of the one before it, all paths differ.
pub proof fn law_accepted_components_have_different_paths(
    files: Seq<BundleComponentFile>,
    order: Seq<usize>,
    a: int,
    b: int,
)
    requires
        is_text_order(order, file_paths(files)),
        none_refused(files, order, order.len() as int),
        0 <= a < b < order.len(),
    ensures
        files[order[a] as int].path@ != files[order[b] as int].path@,
{
    let keys = file_paths(files);
    let x = order[a] as int;
    let y = order[b - 1] as int;
    let z = order[b] as int;
    assert(file_error(files, order, b) is None);
    if keys[x] == keys[z] && a < b - 1 {
        assert(precedes(keys, x, y));
        assert(precedes(keys, y, z));
        lemma_text_total(keys[x], keys[y]);
        lemma_text_total(keys[y], keys[z]);
        if text_lt(keys[x], keys[y]) && text_lt(keys[y], keys[z]) {
            lemma_text_transitive(keys[x], keys[y], keys[z]);
            lemma_text_total(keys[x], keys[z]);
        }
    }
}

/// A path is accepted for a component file only where it is relative, never leads upwards,
/// and names such a file.
pub proof fn law_accepted_component_path_stays_below(path: Seq<char>, i: int)
    requires
        component_path_error(path) is None,
        0 <= i < counted_segments(path).len(),
    ensures
        !is_rooted(path),
        counted_segments(path)[i] != "."@,
        counted_segments(path)[i] != ".."@,
        names_component_file(path),
{
    assert(!is_dots(counted_segments(path)[i]));
}

/// A path is refused for a reason.
pub proof fn law_component_path_is_refused_for_a_reason(path: Seq<char>)
    ensures
        match component_path_error(path) {
            Some(ComponentPathError::Absolute) => is_rooted(path),
            Some(ComponentPathError::Invalid) => counted_segments(path).len() == 0 || exists|i: int|
                0 <= i < counted_segments(path).len() && is_dots(
                    #[trigger] counted_segments(path)[i],
                ),
            Some(ComponentPathError::UnsupportedExtension) => !names_component_file(path),
            None => true,
        },
{
}

/// The declarations that are accepted are those of all files: each file with its path and its
/// component, all of them understood, under paths that are accepted.
pub proof fn law_every_component_is_declared(
    files: Seq<BundleComponentFile>,
    declared: Seq<(Seq<char>, ComponentView)>,
    i: int,
)
    requires
        sorted_declarations(files, declared),
        0 <= i < files.len() <= usize::MAX,
    ensures
        declared.len() == files.len(),
        files[i].component is Ok,
        component_path_error(files[i].path@) is None,
        declared.contains((files[i].path@, files[i].component->Ok_0@)),
{
    let order = choose|order: Seq<usize>|
        #[trigger] is_text_order(order, file_paths(files)) && none_refused(
            files,
            order,
            order.len() as int,
        ) && declared == ordered(files, order);
    lemma_lists_all(order, files.len(), i as usize);
    let k = choose|k: int| 0 <= k < order.len() && order[k] == i as usize;
    assert(file_error(files, order, k) is None);
    assert(declared[k] == (files[i].path@, files[i].component->Ok_0@));
}

/// The components of a bundle are refused only because of one of its files: its path is not
/// accepted, another file has the same path, or it is not understood.
pub proof fn law_components_are_refused_for_a_reason(
    files: Seq<BundleComponentFile>,
    error: BundleComponentsErrorView,
)
    requires
        declarations_error(files, error),
    ensures
        match error {
            BundleComponentsErrorOf::Path { file, error } => file < files.len()
                && component_path_error(files[file as int].path@) == Some(error),
            BundleComponentsErrorOf::Duplicate { file } => file < files.len() && exists|i: int|
                0 <= i < files.len() && i != file && (#[trigger] files[i]).path@
                    == files[file as int].path@,
            BundleComponentsErrorOf::Unreadable { file, cause } => file < files.len() && (
            files[file as int].component matches Err(text) && text@ == cause),
        },
{
    let (order, k) = choose|order: Seq<usize>, k: int|
        #[trigger] is_text_order(order, file_paths(files)) && 0 <= k < order.len() && none_refused(
            files,
            order,
            k,
        ) && #[trigger] file_error(files, order, k) == Some(error);
    assert(order[k] < files.len());
    if k > 0 {
        assert(order[k - 1] < files.len());
        assert(order[k - 1] != order[k]);
        assert(files[order[k - 1] as int].path@ == files[order[k - 1] as int].path@);
    }
}

/// What is at a path, not following symbolic links.
#[derive(Debug, Clone, Copy, PartialEq, Eq, Structural)]
pub enum EntryKind {
    Nothing,
    Directory,
    /// A file, a symbolic link or anything else.
    Other,
}

/// What the writer of components wants done next.
#[derive(Debug, Clone, Copy, PartialEq, Eq, Structural)]
pub enum WriteAction {
    /// Look at the parent of the component root.
    ProbeParent,
    /// Remove the file or link that stands in place of the parent.
    RemoveParent,
    /// Create the parent.
    CreateParent,
    /// Look at the component root.
    ProbeRoot,
    /// Remove the component root with everything in it.
    RemoveRootTree,
    /// Remove the file or link that stands in place of the component root.
    RemoveRootFile,
    /// Create the component root.
    CreateRoot,
    /// Create the directory of a file.
    CreateFileParent { file: usize },
    /// Write a file.
    WriteFile { file: usize },
    /// All files are written.
    Done,
    /// The last action failed.
    Fail,
}

/// Outcome of an action.
#[derive(Debug, Clone, Copy, PartialEq, Eq, Structural)]
pub enum WriteEvent {
    Done,
    Failed,
    Found(EntryKind),
}

/// Progress of writing.
#[derive(Debug, Clone, Copy, PartialEq, Eq, Structural)]
pub enum WritePhase {
    ProbingParent,
    RemovingParent,
    CreatingParent,
    ProbingRoot,
    RemovingRoot,
    CreatingRoot,
    CreatingFileParent,
    WritingFile,
    Finished,
}

/// Writes the components that a bundle declares to a component root.
#[derive(Debug)]
pub struct ComponentWriter {
    pub phase: WritePhase,
    /// The files in the order in which they are written.
    pub order: Vec<usize>,
    /// The file that is being written.
    pub at: usize,
}

/// The step that writes the file at a position of the order, or the end.
pub open spec fn to_file(order: Seq<usize>, at: int) -> (WritePhase, WriteAction) {
    if at < order.len() {
        (WritePhase::CreatingFileParent, WriteAction::CreateFileParent { file: order[at] })
    } else {
        (WritePhase::Finished, WriteAction::Done)
    }
}

impl ComponentWriter {
    pub open spec fn wf(self) -> bool {
        self.phase is CreatingFileParent || self.phase is WritingFile ==> self.at
            < self.order@.len()
    }

    /// The step that follows an outcome.
    pub open spec fn step(self, event: WriteEvent) -> (WritePhase, WriteAction) {
        match (self.phase, event) {
            (WritePhase::ProbingParent, WriteEvent::Found(kind)) => match kind {
                EntryKind::Nothing => (WritePhase::CreatingParent, WriteAction::CreateParent),
                EntryKind::Directory => (WritePhase::ProbingRoot, WriteAction::ProbeRoot),
                EntryKind::Other => (WritePhase::RemovingParent, WriteAction::RemoveParent),
            },
            (WritePhase::RemovingParent, WriteEvent::Done) => (
                WritePhase::CreatingParent,
                WriteAction::CreateParent,
            ),
            (WritePhase::CreatingParent, WriteEvent::Done) => (
                WritePhase::ProbingRoot,
                WriteAction::ProbeRoot,
            ),
            (WritePhase::ProbingRoot, WriteEvent::Found(kind)) => match kind {
                EntryKind::Nothing => (WritePhase::CreatingRoot, WriteAction::CreateRoot),
                EntryKind::Directory => (WritePhase::RemovingRoot, WriteAction::RemoveRootTree),
                EntryKind::Other => (WritePhase::RemovingRoot, WriteAction::RemoveRootFile),
            },
            (WritePhase::RemovingRoot, WriteEvent::Done) => (
                WritePhase::CreatingRoot,
                WriteAction::CreateRoot,
            ),
            (WritePhase::CreatingRoot, WriteEvent::Done) => to_file(self.order@, 0),
            (WritePhase::CreatingFileParent, WriteEvent::Done) => (
                WritePhase::WritingFile,
                WriteAction::WriteFile { file: self.order@[self.at as int] },
            ),
            (WritePhase::WritingFile, WriteEvent::Done) => to_file(self.order@, self.at + 1),
            _ => (WritePhase::Finished, WriteAction::Fail),
        }
    }

    /// The position of the file that is being written after an outcome.
    pub open spec fn next_at(self, event: WriteEvent) -> int {
        match (self.phase, event) {
            (WritePhase::CreatingRoot, WriteEvent::Done) => 0,
            (WritePhase::WritingFile, WriteEvent::Done) => self.at + 1,
            _ => self.at as int,
        }
    }

    /// Begins to write. A bundle whose components are refused changes nothing.
    pub fn write_bundle_components(files: &Vec<BundleComponentFile>) -> (r: Result<
        (ComponentWriter, WriteAction),
        BundleComponentsError,
    >)
        ensures
            match r {
                Ok((writer, action)) => {
                    &&& exists|declared: Seq<(Seq<char>, ComponentView)>|
                        sorted_declarations(files@, declared)
                    &&& writer.wf()
                    &&& writer.phase == WritePhase::ProbingParent
                    &&& is_text_order(writer.order@, file_paths(files@))
                    &&& action == WriteAction::ProbeParent
                },
                Err(e) => declarations_error(files@, e@),
            },
    {
        match validate_bundle_components(files) {
            Ok(_) => {
                let order = order_files(files);
                Ok(
                    (
                        ComponentWriter { phase: WritePhase::ProbingParent, order, at: 0 },
                        WriteAction::ProbeParent,
                    ),
                )
            },
            Err(e) => Err(e),
        }
    }

    fn next_file(&self, at: usize) -> (r: (WritePhase, WriteAction))
        ensures
            r == to_file(self.order@, at as int),
    {
        if at < self.order.len() {
            (
                WritePhase::CreatingFileParent,
                WriteAction::CreateFileParent { file: self.order[at] },
            )
        } else {
            (WritePhase::Finished, WriteAction::Done)
        }
    }

    /// Takes the outcome of the last action and names the next one.
    pub fn next(&mut self, event: WriteEvent) -> (action: WriteAction)
        requires
            old(self).wf(),
        ensures
            final(self).wf(),
            final(self).order == old(self).order,
            (final(self).phase, action) == old(self).step(event),
            final(self).at == old(self).next_at(event),
            action matches WriteAction::CreateFileParent { file } ==> {
                let at = final(self).at as int;
                final(self).order@[at] == file
            },
            action is WriteFile ==> final(self).at == old(self).at,
    {
        let (phase, action) = match (self.phase, event) {
            (WritePhase::ProbingParent, WriteEvent::Found(kind)) => match kind {
                EntryKind::Nothing => (WritePhase::CreatingParent, WriteAction::CreateParent),
                EntryKind::Directory => (WritePhase::ProbingRoot, WriteAction::ProbeRoot),
                EntryKind::Other => (WritePhase::RemovingParent, WriteAction::RemoveParent),
            },
            (WritePhase::RemovingParent, WriteEvent::Done) => (
                WritePhase::CreatingParent,
                WriteAction::CreateParent,
            ),
            (WritePhase::CreatingParent, WriteEvent::Done) => (
                WritePhase::ProbingRoot,
                WriteAction::ProbeRoot,
            ),
            (WritePhase::ProbingRoot, WriteEvent::Found(kind)) => match kind {
                EntryKind::Nothing => (WritePhase::CreatingRoot, WriteAction::CreateRoot),
                EntryKind::Directory => (WritePhase::RemovingRoot, WriteAction::RemoveRootTree),
                EntryKind::Other => (WritePhase::RemovingRoot, WriteAction::RemoveRootFile),
            },
            (WritePhase::RemovingRoot, WriteEvent::Done) => (
                WritePhase::CreatingRoot,
                WriteAction::CreateRoot,
            ),
            (WritePhase::CreatingRoot, WriteEvent::Done) => {
                self.at = 0;
                self.next_file(0)
            },
            (WritePhase::CreatingFileParent, WriteEvent::Done) => (
                WritePhase::WritingFile,
                WriteAction::WriteFile { file: self.order[self.at] },
            ),
            (WritePhase::WritingFile, WriteEvent::Done) => {
                assert(self.order@.len() == self.order.len());
                self.at = self.at + 1;
                self.next_file(self.at)
            },
            _ => (WritePhase::Finished, WriteAction::Fail),
        };
        self.phase = phase;
        action
    }
}

/// A symbolic link in place of the parent of the component root is not followed: it is
/// removed before anything is written.
pub proof fn law_linked_parent_is_replaced(writer: ComponentWriter)
    requires
        writer.phase is ProbingParent,
    ensures
        writer.step(WriteEvent::Found(EntryKind::Other)).1 == WriteAction::RemoveParent,
{
}

/// An entry below a component root.
#[derive(Debug)]
pub struct RootEntry {
    pub path: String,
    /// Whether it is a regular file.
    pub regular: bool,
}

/// The key that paths are ordered by: their segments, with a separator that comes before
/// any other character.
pub open spec fn path_key(path: Seq<char>) -> Seq<char> {
    joined(counted_segments(path), "\0"@)
}

/// The paths of the component files among the first `n` entries.
pub open spec fn component_paths(entries: Seq<RootEntry>, n: nat) -> Seq<Seq<char>>
    decreases n,
{
    if n == 0 {
        Seq::empty()
    } else {
        let before = component_paths(entries, (n - 1) as nat);
        if names_component_file(entries[n - 1].path@) && entries[n - 1].regular {
            before.push(entries[n - 1].path@)
        } else {
            before
        }
    }
}

/// The keys of paths.
pub open spec fn path_keys(paths: Seq<Seq<char>>) -> Seq<Seq<char>> {
    Seq::new(paths.len(), |i: int| path_key(paths[i]))
}

/// Whether the result holds the paths in order.
pub open spec fn is_path_order(r: Seq<Seq<char>>, paths: Seq<Seq<char>>) -> bool {
    exists|order: Seq<usize>|
        #[trigger] is_text_order(order, path_keys(paths)) && r == Seq::new(
            order.len(),
            |k: int| paths[order[k] as int],
        )
}

/// Finds the component files among everything below a component root, in the order of
/// their paths.
pub fn find_component_files(entries: &Vec<RootEntry>) -> (r: Vec<String>)
    ensures
        is_path_order(views(r@), component_paths(entries@, entries@.len())),
{
    let mut paths: Vec<String> = Vec::new();
    let mut keys: Vec<String> = Vec::new();
    let mut i: usize = 0;
    assert(views(paths@) =~= Seq::<Seq<char>>::empty());
    while i < entries.len()
        invariant
            i <= entries@.len(),
            views(paths@) == component_paths(entries@, i as nat),
            keys@.len() == paths@.len(),
            forall|j: int| 0 <= j < keys@.len() ==> (#[trigger] keys@[j])@ == path_key(paths@[j]@),
        decreases entries@.len() - i,
    {
        if is_component_file(entries[i].path.as_str()) && entries[i].regular {
            let ghost before = views(paths@);
            let parts = path_components(entries[i].path.as_str());
            keys.push(join_texts(&parts, "\0"));
            paths.push(entries[i].path.clone());
            assert(views(paths@) =~= before.push(entries@[i as int].path@));
        }
        i = i + 1;
    }
    let ghost all = component_paths(entries@, entries@.len());
    assert(views(keys@) =~= path_keys(all));
    let order = text_order(&keys);
    let mut r: Vec<String> = Vec::new();
    let mut k: usize = 0;
    while k < order.len()
        invariant
            k <= order@.len(),
            is_text_order(order@, path_keys(all)),
            views(paths@) == all,
            r@.len() == k,
            forall|j: int| 0 <= j < k ==> (#[trigger] r@[j])@ == all[order@[j] as int],
        decreases order@.len() - k,
    {
        assert(order@[k as int] < all.len());
        assert(all.len() == paths@.len());
        assert(all[order@[k as int] as int] == paths@[order@[k as int] as int]@);
        r.push(paths[order[k]].clone());
        k = k + 1;
    }
    assert(views(r@) =~= Seq::new(order@.len(), |k: int| all[order@[k] as int]));
    r
}

proof fn lemma_component_paths(entries: Seq<RootEntry>, path: Seq<char>, n: nat)
    requires
        n <= entries.len(),
    ensures
        component_paths(entries, n).contains(path) <==> exists|i: int|
            0 <= i < n && (#[trigger] entries[i]).path@ == path && entries[i].regular
                && names_component_file(path),
    decreases n,
{
    if n > 0 {
        lemma_component_paths(entries, path, (n - 1) as nat);
        let before = component_paths(entries, (n - 1) as nat);
        let all = component_paths(entries, n);
        if before.contains(path) {
            let k = choose|k: int| 0 <= k < before.len() && before[k] == path;
            assert(all[k] == path);
        }
        if all.contains(path) {
            let k = choose|k: int| 0 <= k < all.len() && all[k] == path;
            if k < before.len() {
                assert(before[k] == path);
            } else {
                assert(entries[n - 1].path@ == path);
            }
        }
        if entries[n - 1].path@ == path && entries[n - 1].regular && names_component_file(path) {
            assert(all[before.len() as int] == path);
        }
    }
}

/// The component files below a root are the regular files with the name of one, all of them.
pub proof fn law_component_files_are_found(entries: Seq<RootEntry>, path: Seq<char>)
    ensures
        component_paths(entries, entries.len()).contains(path) <==> exists|i: int|
            0 <= i < entries.len() && (#[trigger] entries[i]).path@ == path && entries[i].regular
                && names_component_file(path),
{
    lemma_component_paths(entries, path, entries.len());
}

} // verus!
