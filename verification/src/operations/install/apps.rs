//! App bundle installation.
//!
//! The installation is a machine: it names one action at a time and takes its
//! outcome. Nothing is changed before the payloads are checked and every app is
//! locked, and as an operation it activates no app before the generations of all
//! apps are complete.

use vstd::prelude::*;
use crate::digest::{HashAlgorithm, HashDigest};
use crate::operations::install::app_bundle::{
    app_bundle_components_owner, app_bundle_error, AppBundleError, AppPayloadDelivery,
    delivery_apps, is_strictly_sorted, same_elements, touched_apps, validate_app_deliveries,
};
use crate::operations::install::system::{DeltaEncoding, InstallFlow};
use crate::path::{is_contained, is_contained_path};
use crate::text::{same, views};

verus! {

/// What is to be installed, and how.
#[derive(Debug)]
pub struct AppInstallRequest {
    pub flow: InstallFlow,
    pub deliveries: Vec<AppPayloadDelivery>,
    /// Whether the bundle declares components.
    pub has_components: bool,
    /// Whether the declared components are valid.
    pub components_valid: bool,
    /// Whether the policy requires components.
    pub requires_components: bool,
    pub skip_compatibility_check: bool,
    pub allow_missing_block_index: bool,
}

/// What a payload of an app bundle is.
#[derive(Debug)]
pub enum AppPayloadKind {
    /// A file of an app.
    File { app: String, path: String, has_mode: bool },
    /// An archive of an app.
    Archive { app: String },
    /// Something else.
    Other,
}

/// What is known of a payload once its header is read.
#[derive(Debug)]
pub struct AppPayloadFacts {
    /// Position in the bundle.
    pub index: usize,
    pub has_block_index: bool,
    pub kind: AppPayloadKind,
    pub delta_encoding: Option<DeltaEncoding>,
}

/// A generation whose file might be the input of a difference.
#[derive(Debug)]
pub struct DeltaCandidate {
    pub complete: bool,
    /// Digests that are stored for the file.
    pub hashes: Vec<HashDigest>,
    /// Whether the file is there.
    pub present: bool,
}

/// What is stored of a file of a generation.
#[derive(Debug)]
pub struct FileState {
    pub path: String,
    pub hash: HashDigest,
    pub size: u64,
}

/// What is stored of the files of a generation, by their paths. Of several states of one
/// file the last one counts.
pub open spec fn stored_files(states: Seq<FileState>) -> Map<
    Seq<char>,
    ((HashAlgorithm, Seq<u8>), u64),
>
    decreases states.len(),
{
    if states.len() == 0 {
        Map::empty()
    } else {
        let last = states.last();
        stored_files(states.drop_last()).insert(last.path@, (last.hash@, last.size))
    }
}

/// Whether `after` are the states once a file of an app is written: what is stored of that
/// file is its new digest and size, and nothing else changes.
pub open spec fn remembers(
    before: Seq<Vec<FileState>>,
    after: Seq<Vec<FileState>>,
    app: int,
    payload: AppPayloadFacts,
    digest: HashDigest,
    size: u64,
) -> bool {
    &&& after.len() == before.len()
    &&& forall|k: int| 0 <= k < before.len() && k != app ==> #[trigger] after[k] == before[k]
    &&& after[app]@.len() == before[app]@.len() + 1
    &&& payload.kind matches AppPayloadKind::File { path, .. } && stored_files(after[app]@)
        == stored_files(before[app]@).insert(path@, (digest@, size))
}

/// Why an installation failed.
#[derive(Debug, Clone, Copy, PartialEq, Eq, Structural)]
pub enum AppInstallError {
    /// The payloads are not those of an app bundle.
    Bundle(AppBundleError),
    /// The declared components are not valid.
    InvalidComponents,
    /// The bundle does not declare required component metadata.
    ComponentsRequired,
    /// The component compatibility check failed.
    Incompatible,
    /// The path of a file is not valid.
    InvalidPath { payload: usize },
    /// The app of a payload was not locked.
    MissingLock { payload: usize },
    /// The payload does not have a block index.
    MissingBlockIndex { payload: usize },
    /// The number of delta encoding inputs is not supported.
    DeltaInputs,
    /// No generation is a suitable delta source.
    NoDeltaSource,
    /// The decoded data does not match its digest.
    HashMismatch,
    /// An app could not be activated; the earlier ones were rolled back, with the outcomes
    /// that the installation has recorded.
    ActivationFailed { app: usize },
    /// The last action failed.
    ActionFailed,
    /// The outcome is not one of the last action.
    UnexpectedOutcome,
}

/// What the installation wants done next. Apps are given by their position among
/// the apps of the bundle.
#[derive(Debug, Clone, Copy)]
pub enum AppAction {
    /// Lock an app.
    Lock { app: usize },
    /// Report that the compatibility check is skipped on request.
    ReportSkip,
    /// Check the installed components against those of the bundle.
    CheckComponents,
    /// Report the failed compatibility check.
    ReportIncompatible,
    /// Read the header of the next payload.
    NextPayload,
    /// Create a generation for an app.
    CreateGeneration { app: usize },
    /// Make sure that no part of the path of the file is a link.
    CheckLinks { app: usize },
    /// Create the directory of the file.
    CreateParent { app: usize },
    /// Collect the blocks that are already on the device.
    ProvideBlocks { app: usize },
    /// Collect the generations that might be the input of a difference.
    FindCandidates { app: usize },
    /// Write a file that is a difference to the one of a candidate.
    WriteDelta { app: usize, candidate: usize },
    /// Write a file.
    WriteFile { app: usize },
    /// Set the permissions of the file.
    SetMode { app: usize },
    /// Create a temporary file for an archive.
    CreateTemporary { app: usize },
    /// Decode an archive into the temporary file.
    DecodeArchive { app: usize },
    /// Check the archive.
    ValidateArchive { app: usize },
    /// Unpack the archive.
    Unpack { app: usize },
    /// Skip the payload.
    Skip,
    /// Store what is known about the files of a generation: the states of the app.
    SavePayloadStates { app: usize },
    /// Write the components of the bundle into the generation.
    WriteComponents { app: usize },
    /// Write the metadata of the generation.
    WriteMetadata { app: usize },
    /// Synchronize the generation and mark it as complete.
    Finalize { app: usize },
    /// Find out which generation of an app is active.
    ReadCurrent { app: usize },
    /// Activate a generation.
    Activate { app: usize, generation: u64 },
    /// Return to the previous generation, or deactivate the app where there was none and
    /// one is active.
    RollBack { app: usize, previous: Option<u64> },
    /// The installation is over.
    Done,
    /// The installation failed.
    Fail(AppInstallError),
}

impl AppAction {
    /// Whether the action changes anything but locks.
    pub open spec fn changes_apps(self) -> bool {
        match self {
            AppAction::CreateGeneration { .. } => true,
            AppAction::CreateParent { .. } => true,
            AppAction::WriteDelta { .. } => true,
            AppAction::WriteFile { .. } => true,
            AppAction::SetMode { .. } => true,
            AppAction::Unpack { .. } => true,
            AppAction::SavePayloadStates { .. } => true,
            AppAction::WriteComponents { .. } => true,
            AppAction::WriteMetadata { .. } => true,
            AppAction::Finalize { .. } => true,
            AppAction::Activate { .. } => true,
            AppAction::RollBack { .. } => true,
            _ => false,
        }
    }
}

/// Outcome of an action.
#[allow(inconsistent_fields)]
#[derive(Debug)]
pub enum AppEvent {
    /// The action succeeded.
    Done,
    /// The action failed.
    Failed,
    /// The components of the bundle are not compatible.
    Incompatible,
    /// There is another payload.
    Payload(AppPayloadFacts),
    /// There are no more payloads.
    End,
    /// A generation was created.
    Created { generation: u64 },
    /// The candidates for the input of a difference.
    Candidates(Vec<DeltaCandidate>),
    /// The file was written; digest and size of its data.
    Written { digest: HashDigest, size: u64 },
    /// The generation that is active.
    Current { generation: Option<u64> },
}

/// Progress of an installation.
#[derive(Debug, Clone, Copy, PartialEq, Eq, Structural)]
pub enum AppPhase {
    Locking { app: usize },
    ReportingSkip,
    Checking,
    ReportingIncompatible,
    Reading,
    Creating { app: usize },
    CheckingLinks { app: usize },
    CreatingParent { app: usize },
    ProvidingBlocks { app: usize },
    FindingCandidates { app: usize },
    Writing { app: usize, delta: bool },
    SettingMode { app: usize },
    CreatingTemporary { app: usize },
    DecodingArchive { app: usize },
    ValidatingArchive { app: usize },
    Unpacking { app: usize },
    Skipping,
    SavingStates { app: usize },
    WritingComponents { app: usize },
    WritingMetadata { app: usize },
    Finalizing { app: usize },
    ReadingCurrent { app: usize },
    Activating { app: usize },
    RollingBack { failed: usize, app: usize },
    Finished,
}

/// A phase and the action that begins it.
pub type AppStep = (AppPhase, AppAction);

impl AppPhase {
    /// The app that the phase is about.
    pub open spec fn app(self) -> Option<usize> {
        match self {
            AppPhase::Locking { app } => Some(app),
            AppPhase::Creating { app } => Some(app),
            AppPhase::CheckingLinks { app } => Some(app),
            AppPhase::CreatingParent { app } => Some(app),
            AppPhase::ProvidingBlocks { app } => Some(app),
            AppPhase::FindingCandidates { app } => Some(app),
            AppPhase::Writing { app, .. } => Some(app),
            AppPhase::SettingMode { app } => Some(app),
            AppPhase::CreatingTemporary { app } => Some(app),
            AppPhase::DecodingArchive { app } => Some(app),
            AppPhase::ValidatingArchive { app } => Some(app),
            AppPhase::Unpacking { app } => Some(app),
            AppPhase::SavingStates { app } => Some(app),
            AppPhase::WritingComponents { app } => Some(app),
            AppPhase::WritingMetadata { app } => Some(app),
            AppPhase::Finalizing { app } => Some(app),
            AppPhase::ReadingCurrent { app } => Some(app),
            AppPhase::Activating { app } => Some(app),
            AppPhase::RollingBack { app, .. } => Some(app),
            _ => None,
        }
    }

    /// Whether the phase installs a payload into a generation.
    pub open spec fn installs_payload(self) -> bool {
        match self {
            AppPhase::Creating { .. } => true,
            AppPhase::CheckingLinks { .. } => true,
            AppPhase::CreatingParent { .. } => true,
            AppPhase::ProvidingBlocks { .. } => true,
            AppPhase::FindingCandidates { .. } => true,
            AppPhase::Writing { .. } => true,
            AppPhase::SettingMode { .. } => true,
            AppPhase::CreatingTemporary { .. } => true,
            AppPhase::DecodingArchive { .. } => true,
            AppPhase::ValidatingArchive { .. } => true,
            AppPhase::Unpacking { .. } => true,
            _ => false,
        }
    }

    /// Whether the phase completes a generation.
    pub open spec fn completes(self) -> bool {
        match self {
            AppPhase::SavingStates { .. } => true,
            AppPhase::WritingComponents { .. } => true,
            AppPhase::WritingMetadata { .. } => true,
            AppPhase::Finalizing { .. } => true,
            _ => false,
        }
    }

    /// Whether the phase activates apps or prepares for it.
    pub open spec fn activates(self) -> bool {
        match self {
            AppPhase::ReadingCurrent { .. } => true,
            AppPhase::Activating { .. } => true,
            AppPhase::RollingBack { .. } => true,
            _ => false,
        }
    }

    /// Whether the phase installs a file.
    pub open spec fn writes_file(self) -> bool {
        match self {
            AppPhase::CheckingLinks { .. } => true,
            AppPhase::CreatingParent { .. } => true,
            AppPhase::ProvidingBlocks { .. } => true,
            AppPhase::FindingCandidates { .. } => true,
            AppPhase::Writing { .. } => true,
            _ => false,
        }
    }

    /// Whether the payload is written as a difference.
    pub open spec fn needs_delta(self) -> bool {
        match self {
            AppPhase::FindingCandidates { .. } => true,
            AppPhase::Writing { delta, .. } => delta,
            _ => false,
        }
    }
}

/// The position of an app from `from` on.
pub open spec fn app_position(apps: Seq<Seq<char>>, app: Seq<char>, from: nat) -> Option<usize>
    decreases apps.len() - from,
{
    if from >= apps.len() {
        None
    } else if apps[from as int] == app {
        Some(from as usize)
    } else {
        app_position(apps, app, from + 1)
    }
}

/// The first app from `from` on that has a generation.
pub open spec fn next_created(generations: Seq<Option<u64>>, from: nat) -> Option<usize>
    decreases generations.len() - from,
{
    if from >= generations.len() {
        None
    } else if generations[from as int] is Some {
        Some(from as usize)
    } else {
        next_created(generations, from + 1)
    }
}

/// The last app before `before` that has a generation.
pub open spec fn previous_created(generations: Seq<Option<u64>>, before: nat) -> Option<usize>
    decreases before,
{
    if before == 0 || before > generations.len() {
        None
    } else if generations[before - 1] is Some {
        Some((before - 1) as usize)
    } else {
        previous_created(generations, (before - 1) as nat)
    }
}

/// Whether the file of a candidate is the input of a difference.
pub open spec fn is_delta_input(candidate: DeltaCandidate, hashes: Seq<HashDigest>) -> bool {
    candidate.complete && candidate.present && exists|i: int, j: int|
        0 <= i < hashes.len() && 0 <= j < candidate.hashes@.len() && (#[trigger] hashes[i])@ == (
        #[trigger] candidate.hashes@[j])@
}

/// The first candidate from `from` on whose file is the input of a difference.
pub open spec fn delta_candidate(
    candidates: Seq<DeltaCandidate>,
    hashes: Seq<HashDigest>,
    from: nat,
) -> Option<usize>
    decreases candidates.len() - from,
{
    if from >= candidates.len() {
        None
    } else if is_delta_input(candidates[from as int], hashes) {
        Some(from as usize)
    } else {
        delta_candidate(candidates, hashes, from + 1)
    }
}

fn find_app(apps: &Vec<String>, app: &str) -> (r: Option<usize>)
    ensures
        r == app_position(views(apps@), app@, 0),
        r matches Some(i) ==> i < apps@.len(),
{
    let mut i: usize = 0;
    while i < apps.len()
        invariant
            i <= apps@.len(),
            app_position(views(apps@), app@, 0) == app_position(views(apps@), app@, i as nat),
        decreases apps@.len() - i,
    {
        assert(views(apps@)[i as int] == apps@[i as int]@);
        if same(apps[i].as_str(), app) {
            return Some(i);
        }
        i = i + 1;
    }
    None
}

fn find_next(generations: &Vec<Option<u64>>, from: usize) -> (r: Option<usize>)
    requires
        from <= generations@.len(),
    ensures
        r == next_created(generations@, from as nat),
        r matches Some(i) ==> from <= i < generations@.len() && generations@[i as int] is Some
            && forall|k: int| from <= k < i ==> generations@[k] is None,
        r is None ==> forall|k: int| from <= k < generations@.len() ==> generations@[k] is None,
{
    let mut i: usize = from;
    while i < generations.len()
        invariant
            from <= i <= generations@.len(),
            next_created(generations@, from as nat) == next_created(generations@, i as nat),
            forall|k: int| from <= k < i ==> generations@[k] is None,
        decreases generations@.len() - i,
    {
        if generations[i].is_some() {
            return Some(i);
        }
        i = i + 1;
    }
    None
}

/// The app that is found has a generation, and none before it has one.
pub proof fn lemma_next_created(generations: Seq<Option<u64>>, from: nat)
    requires
        generations.len() <= usize::MAX,
    ensures
        next_created(generations, from) matches Some(i) ==> from <= i < generations.len()
            && generations[i as int] is Some && forall|k: int|
            from <= k < i ==> generations[k] is None,
        next_created(generations, from) is None ==> forall|k: int|
            from <= k < generations.len() ==> generations[k] is None,
    decreases generations.len() - from,
{
    if from < generations.len() && generations[from as int] is None {
        lemma_next_created(generations, from + 1);
    }
}

fn find_previous(generations: &Vec<Option<u64>>, before: usize) -> (r: Option<usize>)
    requires
        before <= generations@.len(),
    ensures
        r == previous_created(generations@, before as nat),
        r matches Some(i) ==> i < before && generations@[i as int] is Some,
{
    let mut i: usize = before;
    while i > 0
        invariant
            i <= before <= generations@.len(),
            previous_created(generations@, before as nat) == previous_created(
                generations@,
                i as nat,
            ),
        decreases i,
    {
        if generations[i - 1].is_some() {
            return Some(i - 1);
        }
        i = i - 1;
    }
    None
}

fn is_input(candidate: &DeltaCandidate, hashes: &Vec<HashDigest>) -> (r: bool)
    ensures
        r == is_delta_input(*candidate, hashes@),
{
    if !candidate.complete || !candidate.present {
        return false;
    }
    let stored = &candidate.hashes;
    let mut i: usize = 0;
    while i < hashes.len()
        invariant
            i <= hashes@.len(),
            stored == &candidate.hashes,
            candidate.complete && candidate.present,
            forall|a: int, b: int|
                0 <= a < i && 0 <= b < stored@.len() ==> (#[trigger] hashes@[a])@ != (
                #[trigger] stored@[b])@,
        decreases hashes@.len() - i,
    {
        let mut j: usize = 0;
        while j < stored.len()
            invariant
                i < hashes@.len(),
                j <= stored@.len(),
                stored == &candidate.hashes,
                candidate.complete && candidate.present,
                forall|b: int| 0 <= b < j ==> hashes@[i as int]@ != (#[trigger] stored@[b])@,
            decreases stored@.len() - j,
        {
            if hashes[i].equals(&stored[j]) {
                assert(hashes@[i as int]@ == stored@[j as int]@);
                return true;
            }
            j = j + 1;
        }
        i = i + 1;
    }
    false
}

/// Finds the generation whose file is the input of a difference.
pub fn find_delta_candidate(candidates: &Vec<DeltaCandidate>, hashes: &Vec<HashDigest>) -> (r:
    Option<usize>)
    ensures
        r == delta_candidate(candidates@, hashes@, 0),
{
    let mut i: usize = 0;
    while i < candidates.len()
        invariant
            i <= candidates@.len(),
            delta_candidate(candidates@, hashes@, 0) == delta_candidate(
                candidates@,
                hashes@,
                i as nat,
            ),
        decreases candidates@.len() - i,
    {
        if is_input(&candidates[i], hashes) {
            return Some(i);
        }
        i = i + 1;
    }
    None
}

/// What came of rolling back an app.
#[derive(Debug, Clone, Copy, PartialEq, Eq, Structural)]
pub struct AppRollback {
    pub app: usize,
    pub ok: bool,
}

/// The apps from `from` up to, and without, `end` that have a generation, the last one first.
pub open spec fn created_down(generations: Seq<Option<u64>>, from: nat, end: nat) -> Seq<int>
    decreases end - from,
{
    if from >= end {
        Seq::empty()
    } else if generations[from as int] is Some {
        created_down(generations, from + 1, end).push(from as int)
    } else {
        created_down(generations, from + 1, end)
    }
}

/// The apps that were rolled back, in that order.
pub open spec fn rolled_back_apps(rollbacks: Seq<AppRollback>) -> Seq<int> {
    Seq::new(rollbacks.len(), |i: int| rollbacks[i].app as int)
}

/// The installation of an app bundle.
#[derive(Debug)]
pub struct AppInstall {
    pub phase: AppPhase,
    /// The apps of the bundle.
    pub apps: Vec<String>,
    /// For each app, the generation that was created.
    pub generations: Vec<Option<u64>>,
    /// For each app, what is to be stored of the files that were written.
    pub states: Vec<Vec<FileState>>,
    /// For each app, whether its generation is complete.
    pub complete: Vec<bool>,
    /// For each app, the generation that was active before.
    pub previous: Vec<Option<u64>>,
    /// What came of each app that was rolled back, in that order.
    pub rollbacks: Vec<AppRollback>,
    /// The payload that is being installed.
    pub payload: Option<AppPayloadFacts>,
}

/// The end of an installation that failed.
pub open spec fn app_failed(error: AppInstallError) -> AppStep {
    (AppPhase::Finished, AppAction::Fail(error))
}

/// The step that reads the next payload.
pub open spec fn to_next_payload() -> AppStep {
    (AppPhase::Reading, AppAction::NextPayload)
}

/// The step after all apps are locked.
pub open spec fn to_check(request: AppInstallRequest) -> AppStep {
    if request.skip_compatibility_check {
        match request.flow {
            InstallFlow::Operation => (AppPhase::ReportingSkip, AppAction::ReportSkip),
            InstallFlow::Command => to_next_payload(),
        }
    } else if request.flow == InstallFlow::Operation && !request.has_components
        && request.requires_components {
        app_failed(AppInstallError::ComponentsRequired)
    } else {
        (AppPhase::Checking, AppAction::CheckComponents)
    }
}

/// The first step of an installation.
pub open spec fn first_app_step(request: AppInstallRequest, apps: nat) -> AppStep {
    match app_bundle_error(request.deliveries@) {
        Some(e) => app_failed(AppInstallError::Bundle(e)),
        None => if request.has_components && !request.components_valid {
            app_failed(AppInstallError::InvalidComponents)
        } else if request.has_components && apps == 0 {
            app_failed(AppInstallError::Bundle(AppBundleError::ComponentsWithoutApp))
        } else if request.has_components && apps > 1 {
            app_failed(AppInstallError::Bundle(AppBundleError::ComponentsForManyApps))
        } else if apps == 0 {
            to_check(request)
        } else {
            (AppPhase::Locking { app: 0 }, AppAction::Lock { app: 0 })
        },
    }
}

/// The step that begins the installation of a payload whose app has a generation.
pub open spec fn to_content(app: usize, payload: AppPayloadFacts) -> AppStep {
    match payload.kind {
        AppPayloadKind::File { .. } => (
            AppPhase::CheckingLinks { app },
            AppAction::CheckLinks { app },
        ),
        _ => (AppPhase::CreatingTemporary { app }, AppAction::CreateTemporary { app }),
    }
}

/// The app that a payload belongs to.
pub open spec fn payload_app(payload: AppPayloadFacts) -> Option<Seq<char>> {
    match payload.kind {
        AppPayloadKind::File { app, .. } => Some(app@),
        AppPayloadKind::Archive { app } => Some(app@),
        AppPayloadKind::Other => None,
    }
}

/// The step that begins the installation of a payload.
pub open spec fn to_app_payload(
    apps: Seq<Seq<char>>,
    generations: Seq<Option<u64>>,
    payload: AppPayloadFacts,
) -> AppStep {
    let bad_path = match payload.kind {
        AppPayloadKind::File { path, .. } => !is_contained(path@),
        _ => false,
    };
    if bad_path {
        app_failed(AppInstallError::InvalidPath { payload: payload.index })
    } else {
        match payload_app(payload) {
            None => (AppPhase::Skipping, AppAction::Skip),
            Some(name) => match app_position(apps, name, 0) {
                None => app_failed(AppInstallError::MissingLock { payload: payload.index }),
                Some(app) => if generations[app as int] is Some {
                    to_content(app, payload)
                } else {
                    (AppPhase::Creating { app }, AppAction::CreateGeneration { app })
                },
            },
        }
    }
}

/// The step that writes a file.
pub open spec fn to_write_file(app: usize, payload: AppPayloadFacts) -> AppStep {
    match payload.delta_encoding {
        Some(delta) => if delta.inputs@.len() != 1 {
            app_failed(AppInstallError::DeltaInputs)
        } else {
            (AppPhase::FindingCandidates { app }, AppAction::FindCandidates { app })
        },
        None => (AppPhase::Writing { app, delta: false }, AppAction::WriteFile { app }),
    }
}

/// The step that collects blocks for a file.
pub open spec fn to_file_blocks(
    app: usize,
    request: AppInstallRequest,
    payload: AppPayloadFacts,
) -> AppStep {
    if request.allow_missing_block_index {
        to_write_file(app, payload)
    } else if !payload.has_block_index {
        app_failed(AppInstallError::MissingBlockIndex { payload: payload.index })
    } else {
        (AppPhase::ProvidingBlocks { app }, AppAction::ProvideBlocks { app })
    }
}

/// The step that decodes an archive.
pub open spec fn to_decode(
    app: usize,
    request: AppInstallRequest,
    payload: AppPayloadFacts,
) -> AppStep {
    if !request.allow_missing_block_index && !payload.has_block_index {
        app_failed(AppInstallError::MissingBlockIndex { payload: payload.index })
    } else {
        (AppPhase::DecodingArchive { app }, AppAction::DecodeArchive { app })
    }
}

/// The step after a file is written.
pub open spec fn to_mode(app: usize, payload: AppPayloadFacts) -> AppStep {
    match payload.kind {
        AppPayloadKind::File { has_mode, .. } => if has_mode {
            (AppPhase::SettingMode { app }, AppAction::SetMode { app })
        } else {
            to_next_payload()
        },
        _ => to_next_payload(),
    }
}

/// The step that completes a generation, after its payload states are stored.
pub open spec fn to_metadata(app: usize, request: AppInstallRequest) -> AppStep {
    if request.has_components && app == 0 {
        (AppPhase::WritingComponents { app }, AppAction::WriteComponents { app })
    } else {
        (AppPhase::WritingMetadata { app }, AppAction::WriteMetadata { app })
    }
}

impl AppInstall {
    /// The step that begins to complete a generation.
    pub open spec fn to_complete(self, app: usize, request: AppInstallRequest) -> AppStep {
        if self.states@[app as int]@.len() > 0 {
            (AppPhase::SavingStates { app }, AppAction::SavePayloadStates { app })
        } else {
            to_metadata(app, request)
        }
    }

    /// The step that activates the generation of an app.
    pub open spec fn to_activate(self, app: usize) -> AppStep {
        (
            AppPhase::Activating { app },
            AppAction::Activate { app, generation: self.generations@[app as int]->0 },
        )
    }

    /// The step after a generation is complete.
    pub open spec fn after_complete(self, app: usize, request: AppInstallRequest) -> AppStep {
        match request.flow {
            InstallFlow::Command => self.to_activate(app),
            InstallFlow::Operation => match next_created(self.generations@, (app + 1) as nat) {
                Some(other) => self.to_complete(other, request),
                None => match next_created(self.generations@, 0) {
                    Some(first) => (
                        AppPhase::ReadingCurrent { app: first },
                        AppAction::ReadCurrent { app: first },
                    ),
                    None => (AppPhase::Finished, AppAction::Done),
                },
            },
        }
    }

    /// The step after an app is activated.
    pub open spec fn after_activate(self, app: usize, request: AppInstallRequest) -> AppStep {
        match next_created(self.generations@, (app + 1) as nat) {
            Some(other) => match request.flow {
                InstallFlow::Command => self.to_complete(other, request),
                InstallFlow::Operation => self.to_activate(other),
            },
            None => (AppPhase::Finished, AppAction::Done),
        }
    }

    /// The step that rolls back the last app before `before`, after `failed` could
    /// not be activated.
    pub open spec fn to_roll_back(self, failed: usize, before: usize) -> AppStep {
        match previous_created(self.generations@, before as nat) {
            Some(app) => (
                AppPhase::RollingBack { failed, app },
                AppAction::RollBack { app, previous: self.previous@[app as int] },
            ),
            None => app_failed(AppInstallError::ActivationFailed { app: failed }),
        }
    }

    /// What each phase presupposes.
    pub open spec fn wf(self, request: AppInstallRequest) -> bool {
        &&& self.generations@.len() == self.apps@.len()
        &&& self.states@.len() == self.apps@.len()
        &&& self.complete@.len() == self.apps@.len()
        &&& self.previous@.len() == self.apps@.len()
        &&& self.phase !is Finished ==> app_bundle_error(request.deliveries@) is None
        &&& self.phase.app() matches Some(app) ==> app < self.apps@.len()
        &&& self.phase.installs_payload() ==> self.payload is Some
        &&& self.phase.writes_file() ==> self.payload is Some && self.payload->0.kind is File
        &&& self.phase.needs_delta() ==> self.payload is Some && self.payload->0.delta_encoding is Some
            && self.payload->0.delta_encoding->0.inputs@.len() == 1
        &&& self.phase.completes() ==> {
            let app = self.phase.app()->0 as int;
            &&& self.generations@[app] is Some
            &&& forall|k: int| 0 <= k < app && self.generations@[k] is Some ==> self.complete@[k]
        }
        &&& self.phase.activates() ==> {
            let app = self.phase.app()->0 as int;
            &&& self.generations@[app] is Some
            &&& request.flow == InstallFlow::Operation ==> self.all_complete()
            &&& self.complete@[app]
            &&& forall|k: int| 0 <= k < app && self.generations@[k] is Some ==> self.complete@[k]
        }
        &&& self.phase is ReadingCurrent || self.phase is RollingBack ==> request.flow
            == InstallFlow::Operation
        &&& self.phase matches AppPhase::RollingBack { failed, app } ==> app < failed
            < self.apps@.len() && self.generations@[app as int] is Some && rolled_back_apps(
            self.rollbacks@,
        ) == created_down(self.generations@, (app + 1) as nat, failed as nat)
        &&& !(self.phase is RollingBack) && !(self.phase is Finished) ==> self.rollbacks@.len() == 0
    }

    /// Whether every generation that was created is complete.
    pub open spec fn all_complete(self) -> bool {
        forall|k: int|
            0 <= k < self.generations@.len() && self.generations@[k] is Some ==> self.complete@[k]
    }

    /// The step that follows an outcome.
    pub open spec fn step(self, request: AppInstallRequest, event: AppEvent) -> AppStep {
        if event is Failed && self.phase is RollingBack {
            self.to_roll_back(self.phase->failed, self.phase->RollingBack_app)
        } else if event is Failed && self.phase is Activating && request.flow
            == InstallFlow::Operation {
            self.to_roll_back(self.phase->Activating_app, self.phase->Activating_app)
        } else if event is Failed {
            app_failed(AppInstallError::ActionFailed)
        } else {
            match (self.phase, event) {
                (AppPhase::Locking { app }, AppEvent::Done) => if app + 1 < self.apps@.len() {
                    (
                        AppPhase::Locking { app: (app + 1) as usize },
                        AppAction::Lock { app: (app + 1) as usize },
                    )
                } else {
                    to_check(request)
                },
                (AppPhase::ReportingSkip, AppEvent::Done) => to_next_payload(),
                (AppPhase::Checking, AppEvent::Done) => to_next_payload(),
                (AppPhase::Checking, AppEvent::Incompatible) => (
                    AppPhase::ReportingIncompatible,
                    AppAction::ReportIncompatible,
                ),
                (AppPhase::ReportingIncompatible, AppEvent::Done) => app_failed(
                    AppInstallError::Incompatible,
                ),
                (AppPhase::Reading, AppEvent::Payload(payload)) => to_app_payload(
                    views(self.apps@),
                    self.generations@,
                    payload,
                ),
                (AppPhase::Reading, AppEvent::End) => match next_created(self.generations@, 0) {
                    Some(app) => self.to_complete(app, request),
                    None => (AppPhase::Finished, AppAction::Done),
                },
                (AppPhase::Creating { app }, AppEvent::Created { .. }) => to_content(
                    app,
                    self.payload->0,
                ),
                (AppPhase::CheckingLinks { app }, AppEvent::Done) => (
                    AppPhase::CreatingParent { app },
                    AppAction::CreateParent { app },
                ),
                (AppPhase::CreatingParent { app }, AppEvent::Done) => to_file_blocks(
                    app,
                    request,
                    self.payload->0,
                ),
                (AppPhase::ProvidingBlocks { app }, AppEvent::Done) => to_write_file(
                    app,
                    self.payload->0,
                ),
                (
                    AppPhase::FindingCandidates { app },
                    AppEvent::Candidates(candidates),
                ) => match delta_candidate(
                    candidates@,
                    self.payload->0.delta_encoding->0.inputs@[0]@,
                    0,
                ) {
                    Some(candidate) => (
                        AppPhase::Writing { app, delta: true },
                        AppAction::WriteDelta { app, candidate },
                    ),
                    None => app_failed(AppInstallError::NoDeltaSource),
                },
                (AppPhase::Writing { app, delta }, AppEvent::Written { digest, .. }) => if delta
                    && digest@ != self.payload->0.delta_encoding->0.original_hash@ {
                    app_failed(AppInstallError::HashMismatch)
                } else {
                    to_mode(app, self.payload->0)
                },
                (AppPhase::SettingMode { .. }, AppEvent::Done) => to_next_payload(),
                (AppPhase::CreatingTemporary { app }, AppEvent::Done) => to_decode(
                    app,
                    request,
                    self.payload->0,
                ),
                (AppPhase::DecodingArchive { app }, AppEvent::Done) => (
                    AppPhase::ValidatingArchive { app },
                    AppAction::ValidateArchive { app },
                ),
                (AppPhase::ValidatingArchive { app }, AppEvent::Done) => (
                    AppPhase::Unpacking { app },
                    AppAction::Unpack { app },
                ),
                (AppPhase::Unpacking { .. }, AppEvent::Done) => to_next_payload(),
                (AppPhase::Skipping, AppEvent::Done) => to_next_payload(),
                (AppPhase::SavingStates { app }, AppEvent::Done) => to_metadata(app, request),
                (AppPhase::WritingComponents { app }, AppEvent::Done) => (
                    AppPhase::WritingMetadata { app },
                    AppAction::WriteMetadata { app },
                ),
                (AppPhase::WritingMetadata { app }, AppEvent::Done) => (
                    AppPhase::Finalizing { app },
                    AppAction::Finalize { app },
                ),
                (AppPhase::Finalizing { app }, AppEvent::Done) => self.after_complete(app, request),
                (AppPhase::ReadingCurrent { app }, AppEvent::Current { .. }) => match next_created(
                    self.generations@,
                    (app + 1) as nat,
                ) {
                    Some(other) => (
                        AppPhase::ReadingCurrent { app: other },
                        AppAction::ReadCurrent { app: other },
                    ),
                    None => self.to_activate(next_created(self.generations@, 0)->0),
                },
                (AppPhase::Activating { app }, AppEvent::Done) => self.after_activate(app, request),
                (AppPhase::RollingBack { failed, app }, AppEvent::Done) => self.to_roll_back(
                    failed,
                    app,
                ),
                _ => app_failed(AppInstallError::UnexpectedOutcome),
            }
        }
    }

    /// Whether an outcome leads from this state to another one and to the next action.
    pub open spec fn follows(
        self,
        request: AppInstallRequest,
        event: AppEvent,
        after: AppInstall,
        action: AppAction,
    ) -> bool {
        &&& after.wf(request)
        &&& (after.phase, action) == (AppInstall {
            generations: after.generations,
            states: after.states,
            complete: after.complete,
            previous: after.previous,
            rollbacks: after.rollbacks,
            ..self
        }).step(request, event)
        &&& after.apps == self.apps
        &&& after.payload == match (self.phase, event) {
            (AppPhase::Reading, AppEvent::Payload(payload)) => Some(payload),
            _ => self.payload,
        }
        &&& after.generations@ == match (self.phase, event) {
            (
                AppPhase::Creating { app },
                AppEvent::Created { generation },
            ) => self.generations@.update(app as int, Some(generation)),
            _ => self.generations@,
        }
        &&& match (self.phase, event) {
            (AppPhase::Writing { app, delta }, AppEvent::Written { digest, size }) => if delta
                && digest@ != self.payload->0.delta_encoding->0.original_hash@ {
                after.states == self.states
            } else {
                remembers(self.states@, after.states@, app as int, self.payload->0, digest, size)
            },
            _ => after.states == self.states,
        }
        &&& after.previous@ == match (self.phase, event) {
            (
                AppPhase::ReadingCurrent { app },
                AppEvent::Current { generation },
            ) => self.previous@.update(app as int, generation),
            _ => self.previous@,
        }
    }

    fn check(request: &AppInstallRequest) -> (r: AppStep)
        ensures
            r == to_check(*request),
    {
        let operation = request.flow == InstallFlow::Operation;
        if request.skip_compatibility_check {
            if operation {
                (AppPhase::ReportingSkip, AppAction::ReportSkip)
            } else {
                (AppPhase::Reading, AppAction::NextPayload)
            }
        } else if operation && !request.has_components && request.requires_components {
            (AppPhase::Finished, AppAction::Fail(AppInstallError::ComponentsRequired))
        } else {
            (AppPhase::Checking, AppAction::CheckComponents)
        }
    }

    /// Begins the installation of an app bundle.
    pub fn begin(request: &AppInstallRequest) -> (r: (AppInstall, AppAction))
        ensures
            (r.0.phase, r.1) == first_app_step(*request, r.0.apps@.len()),
            r.0.wf(*request),
            is_strictly_sorted(views(r.0.apps@)),
            same_elements(
                views(r.0.apps@),
                delivery_apps(
                    request.deliveries@,
                    request.deliveries@.len(),
                ),
            ),
            forall|i: int| 0 <= i < r.0.apps@.len() ==> (#[trigger] r.0.generations@[i]) is None,
            forall|i: int| 0 <= i < r.0.apps@.len() ==> (#[trigger] r.0.states@[i])@.len() == 0,
            forall|i: int| 0 <= i < r.0.apps@.len() ==> !(#[trigger] r.0.complete@[i]),
            r.0.rollbacks@.len() == 0,
            r.0.payload is None,
            !r.1.changes_apps(),
    {
        let apps = touched_apps(&request.deliveries);
        let count: usize = apps.len();
        let mut generations: Vec<Option<u64>> = Vec::new();
        let mut states: Vec<Vec<FileState>> = Vec::new();
        let mut complete: Vec<bool> = Vec::new();
        let mut previous: Vec<Option<u64>> = Vec::new();
        let mut i: usize = 0;
        while i < count
            invariant
                i <= count,
                generations@.len() == i,
                states@.len() == i,
                complete@.len() == i,
                previous@.len() == i,
                forall|k: int| 0 <= k < i ==> (#[trigger] generations@[k]) is None,
                forall|k: int| 0 <= k < i ==> (#[trigger] states@[k])@.len() == 0,
                forall|k: int| 0 <= k < i ==> !(#[trigger] complete@[k]),
            decreases count - i,
        {
            generations.push(None);
            states.push(Vec::new());
            complete.push(false);
            previous.push(None);
            i = i + 1;
        }
        let step: AppStep = match validate_app_deliveries(&request.deliveries) {
            Err(e) => (AppPhase::Finished, AppAction::Fail(AppInstallError::Bundle(e))),
            Ok(()) => if request.has_components && !request.components_valid {
                (AppPhase::Finished, AppAction::Fail(AppInstallError::InvalidComponents))
            } else {
                let owner = if request.has_components {
                    app_bundle_components_owner(&apps)
                } else {
                    Ok(String::new())
                };
                match owner {
                    Err(e) => (AppPhase::Finished, AppAction::Fail(AppInstallError::Bundle(e))),
                    Ok(_) => if count == 0 {
                        Self::check(request)
                    } else {
                        (AppPhase::Locking { app: 0 }, AppAction::Lock { app: 0 })
                    },
                }
            },
        };
        let install = AppInstall {
            phase: step.0,
            apps,
            generations,
            states,
            complete,
            previous,
            rollbacks: Vec::new(),
            payload: None,
        };
        (install, step.1)
    }

    fn content(app: usize, payload: &AppPayloadFacts) -> (r: AppStep)
        ensures
            r == to_content(app, *payload),
    {
        match &payload.kind {
            AppPayloadKind::File { .. } => (
                AppPhase::CheckingLinks { app },
                AppAction::CheckLinks { app },
            ),
            _ => (AppPhase::CreatingTemporary { app }, AppAction::CreateTemporary { app }),
        }
    }

    fn enter_payload(
        apps: &Vec<String>,
        generations: &Vec<Option<u64>>,
        payload: &AppPayloadFacts,
    ) -> (r: AppStep)
        requires
            generations@.len() == apps@.len(),
        ensures
            r == to_app_payload(views(apps@), generations@, *payload),
            r.0.app() matches Some(app) ==> app < apps@.len(),
    {
        let name = match &payload.kind {
            AppPayloadKind::File { app, path, .. } => {
                if !is_contained_path(path.as_str()) {
                    let error = AppInstallError::InvalidPath { payload: payload.index };
                    return (AppPhase::Finished, AppAction::Fail(error));
                }
                app
            },
            AppPayloadKind::Archive { app } => app,
            AppPayloadKind::Other => return (AppPhase::Skipping, AppAction::Skip),
        };
        match find_app(apps, name.as_str()) {
            None => {
                let error = AppInstallError::MissingLock { payload: payload.index };
                (AppPhase::Finished, AppAction::Fail(error))
            },
            Some(app) => if generations[app].is_some() {
                Self::content(app, payload)
            } else {
                (AppPhase::Creating { app }, AppAction::CreateGeneration { app })
            },
        }
    }

    fn write_file(app: usize, payload: &AppPayloadFacts) -> (r: AppStep)
        ensures
            r == to_write_file(app, *payload),
    {
        match &payload.delta_encoding {
            Some(delta) => if delta.inputs.len() != 1 {
                (AppPhase::Finished, AppAction::Fail(AppInstallError::DeltaInputs))
            } else {
                (AppPhase::FindingCandidates { app }, AppAction::FindCandidates { app })
            },
            None => (AppPhase::Writing { app, delta: false }, AppAction::WriteFile { app }),
        }
    }

    fn file_blocks(app: usize, request: &AppInstallRequest, payload: &AppPayloadFacts) -> (r:
        AppStep)
        ensures
            r == to_file_blocks(app, *request, *payload),
    {
        if request.allow_missing_block_index {
            return Self::write_file(app, payload);
        }
        if !payload.has_block_index {
            let error = AppInstallError::MissingBlockIndex { payload: payload.index };
            return (AppPhase::Finished, AppAction::Fail(error));
        }
        (AppPhase::ProvidingBlocks { app }, AppAction::ProvideBlocks { app })
    }

    fn decode(app: usize, request: &AppInstallRequest, payload: &AppPayloadFacts) -> (r: AppStep)
        ensures
            r == to_decode(app, *request, *payload),
    {
        if !request.allow_missing_block_index && !payload.has_block_index {
            let error = AppInstallError::MissingBlockIndex { payload: payload.index };
            return (AppPhase::Finished, AppAction::Fail(error));
        }
        (AppPhase::DecodingArchive { app }, AppAction::DecodeArchive { app })
    }

    fn mode(app: usize, payload: &AppPayloadFacts) -> (r: AppStep)
        ensures
            r == to_mode(app, *payload),
    {
        if let AppPayloadKind::File { has_mode, .. } = &payload.kind {
            if *has_mode {
                return (AppPhase::SettingMode { app }, AppAction::SetMode { app });
            }
        }
        (AppPhase::Reading, AppAction::NextPayload)
    }

    fn metadata(app: usize, request: &AppInstallRequest) -> (r: AppStep)
        ensures
            r == to_metadata(app, *request),
    {
        if request.has_components && app == 0 {
            (AppPhase::WritingComponents { app }, AppAction::WriteComponents { app })
        } else {
            (AppPhase::WritingMetadata { app }, AppAction::WriteMetadata { app })
        }
    }

    fn completing(&self, app: usize, request: &AppInstallRequest) -> (r: AppStep)
        requires
            app < self.states@.len(),
        ensures
            r == self.to_complete(app, *request),
    {
        if self.states[app].len() > 0 {
            (AppPhase::SavingStates { app }, AppAction::SavePayloadStates { app })
        } else {
            Self::metadata(app, request)
        }
    }

    fn activating(&self, app: usize) -> (r: AppStep)
        requires
            app < self.generations@.len(),
            self.generations@[app as int] is Some,
        ensures
            r == self.to_activate(app),
    {
        let generation: u64 = self.generations[app].unwrap();
        (AppPhase::Activating { app }, AppAction::Activate { app, generation })
    }

    fn completed(&self, app: usize, request: &AppInstallRequest) -> (r: AppStep)
        requires
            app < self.apps@.len(),
            self.generations@.len() == self.apps@.len(),
            self.states@.len() == self.apps@.len(),
            self.generations@[app as int] is Some,
        ensures
            r == self.after_complete(app, *request),
    {
        assert(self.generations@.len() == self.generations.len());
        match request.flow {
            InstallFlow::Command => self.activating(app),
            InstallFlow::Operation => match find_next(&self.generations, app + 1) {
                Some(other) => self.completing(other, request),
                None => match find_next(&self.generations, 0) {
                    Some(first) => (
                        AppPhase::ReadingCurrent { app: first },
                        AppAction::ReadCurrent { app: first },
                    ),
                    None => (AppPhase::Finished, AppAction::Done),
                },
            },
        }
    }

    fn activated(&self, app: usize, request: &AppInstallRequest) -> (r: AppStep)
        requires
            app < self.apps@.len(),
            self.generations@.len() == self.apps@.len(),
            self.states@.len() == self.apps@.len(),
        ensures
            r == self.after_activate(app, *request),
    {
        assert(self.generations@.len() == self.generations.len());
        match find_next(&self.generations, app + 1) {
            Some(other) => match request.flow {
                InstallFlow::Command => self.completing(other, request),
                InstallFlow::Operation => self.activating(other),
            },
            None => (AppPhase::Finished, AppAction::Done),
        }
    }

    fn record_rollback(&mut self, failed: usize, app: usize, ok: bool)
        requires
            app < failed <= old(self).generations@.len(),
            old(self).generations@[app as int] is Some,
            rolled_back_apps(old(self).rollbacks@) == created_down(
                old(self).generations@,
                (app + 1) as nat,
                failed as nat,
            ),
        ensures
            *final(self) == (AppInstall { rollbacks: final(self).rollbacks, ..*old(self) }),
            final(self).rollbacks@ == old(self).rollbacks@.push(AppRollback { app, ok }),
            rolled_back_apps(final(self).rollbacks@) == created_down(
                final(self).generations@,
                app as nat,
                failed as nat,
            ),
    {
        let ghost before = rolled_back_apps(self.rollbacks@);
        self.rollbacks.push(AppRollback { app, ok });
        assert(rolled_back_apps(self.rollbacks@) =~= before.push(app as int));
    }

    fn rolling_back(&self, failed: usize, before: usize) -> (r: AppStep)
        requires
            before <= failed <= self.apps@.len(),
            self.generations@.len() == self.apps@.len(),
            self.previous@.len() == self.apps@.len(),
            rolled_back_apps(self.rollbacks@) == created_down(
                self.generations@,
                before as nat,
                failed as nat,
            ),
        ensures
            r == self.to_roll_back(failed, before),
            match r.0.app() {
                Some(app) => app < before && self.generations@[app as int] is Some
                    && rolled_back_apps(self.rollbacks@) == created_down(
                    self.generations@,
                    (app + 1) as nat,
                    failed as nat,
                ),
                None => rolled_back_apps(self.rollbacks@) == created_down(
                    self.generations@,
                    0,
                    failed as nat,
                ),
            },
    {
        proof {
            assert(self.generations@.len() == self.generations.len());
            lemma_previous_created(self.generations@, before as nat);
            match previous_created(self.generations@, before as nat) {
                Some(app) => lemma_created_down(
                    self.generations@,
                    (app + 1) as nat,
                    before as nat,
                    failed as nat,
                ),
                None => lemma_created_down(self.generations@, 0, before as nat, failed as nat),
            }
        }
        match find_previous(&self.generations, before) {
            Some(app) => {
                let previous = self.previous[app];
                (AppPhase::RollingBack { failed, app }, AppAction::RollBack { app, previous })
            },
            None => (
                AppPhase::Finished,
                AppAction::Fail(AppInstallError::ActivationFailed { app: failed }),
            ),
        }
    }

    /// Takes the outcome of the last action and names the next one.
    ///
    /// Nothing is changed unless the payloads are those of an app bundle. An archive
    /// is unpacked only after it was found sound. A generation is activated only when
    /// it is complete and, in an operation, only when all generations are. When an
    /// app cannot be activated in an operation, the apps before it are rolled back,
    /// the last one first, whatever comes of each; the outcome of each is recorded.
    #[verifier::rlimit(60)]
    pub fn next(&mut self, request: &AppInstallRequest, event: AppEvent) -> (action: AppAction)
        requires
            old(self).wf(*request),
        ensures
            old(self).follows(*request, event, *final(self), action),
            final(self).wf(*request),
            ({
                let recorded = AppInstall {
                    generations: final(self).generations,
                    states: final(self).states,
                    complete: final(self).complete,
                    previous: final(self).previous,
                    rollbacks: final(self).rollbacks,
                    ..*old(self)
                };
                (final(self).phase, action) == recorded.step(*request, event)
            }),
            final(self).apps == old(self).apps,
            final(self).payload == match (old(self).phase, event) {
                (AppPhase::Reading, AppEvent::Payload(payload)) => Some(payload),
                _ => old(self).payload,
            },
            final(self).generations@ == match (old(self).phase, event) {
                (AppPhase::Creating { app }, AppEvent::Created { generation }) => old(
                    self,
                ).generations@.update(app as int, Some(generation)),
                _ => old(self).generations@,
            },
            match (old(self).phase, event) {
                (
                    AppPhase::Writing { app, delta },
                    AppEvent::Written { digest, size },
                ) => if delta && digest@ != old(
                    self,
                ).payload->0.delta_encoding->0.original_hash@ {
                    final(self).states == old(self).states
                } else {
                    remembers(
                        old(self).states@,
                        final(self).states@,
                        app as int,
                        old(self).payload->0,
                        digest,
                        size,
                    )
                },
                _ => final(self).states == old(self).states,
            },
            final(self).complete@ == match (old(self).phase, event) {
                (AppPhase::Finalizing { app }, AppEvent::Done) => old(self).complete@.update(
                    app as int,
                    true,
                ),
                (AppPhase::Creating { app }, AppEvent::Created { .. }) => old(
                    self,
                ).complete@.update(app as int, false),
                _ => old(self).complete@,
            },
            final(self).previous@ == match (old(self).phase, event) {
                (AppPhase::ReadingCurrent { app }, AppEvent::Current { generation }) => old(
                    self,
                ).previous@.update(app as int, generation),
                _ => old(self).previous@,
            },
            final(self).rollbacks@ == match (old(self).phase, event) {
                (AppPhase::RollingBack { app, .. }, AppEvent::Done) => old(self).rollbacks@.push(
                    AppRollback { app, ok: true },
                ),
                (AppPhase::RollingBack { app, .. }, AppEvent::Failed) => old(self).rollbacks@.push(
                    AppRollback { app, ok: false },
                ),
                _ => old(self).rollbacks@,
            },
            action matches AppAction::Fail(AppInstallError::ActivationFailed { app }) ==> (
            rolled_back_apps(final(self).rollbacks@) == created_down(
                final(self).generations@,
                0,
                app as nat,
            )),
            action.changes_apps() ==> app_bundle_error(request.deliveries@) is None,
            action is Unpack ==> old(self).phase is ValidatingArchive && event is Done,
            action matches AppAction::Activate { app, generation } ==> {
                &&& app < final(self).apps@.len()
                &&& final(self).generations@[app as int] == Some(generation)
                &&& final(self).complete@[app as int]
                &&& request.flow == InstallFlow::Operation ==> final(self).all_complete()
            },
    {
        let phase = self.phase;
        proof {
            assert(self.generations@.len() == self.generations.len());
            lemma_next_created(self.generations@, 0);
            if let Some(app) = phase.app() {
                lemma_next_created(self.generations@, (app + 1) as nat);
            }
        }
        match &event {
            AppEvent::Failed => {
                let step: AppStep = match phase {
                    AppPhase::RollingBack { failed, app } => {
                        self.record_rollback(failed, app, false);
                        self.rolling_back(failed, app)
                    },
                    AppPhase::Activating { app } => if request.flow == InstallFlow::Operation {
                        assert(rolled_back_apps(self.rollbacks@) =~= created_down(
                            self.generations@,
                            app as nat,
                            app as nat,
                        ));
                        self.rolling_back(app, app)
                    } else {
                        (AppPhase::Finished, AppAction::Fail(AppInstallError::ActionFailed))
                    },
                    _ => (AppPhase::Finished, AppAction::Fail(AppInstallError::ActionFailed)),
                };
                self.phase = step.0;
                return step.1;
            },
            _ => {},
        }
        let step: AppStep = match (phase, event) {
            (AppPhase::Locking { app }, AppEvent::Done) => if app + 1 < self.apps.len() {
                (AppPhase::Locking { app: app + 1 }, AppAction::Lock { app: app + 1 })
            } else {
                Self::check(request)
            },
            (AppPhase::ReportingSkip, AppEvent::Done) => (AppPhase::Reading, AppAction::NextPayload),
            (AppPhase::Checking, AppEvent::Done) => (AppPhase::Reading, AppAction::NextPayload),
            (AppPhase::Checking, AppEvent::Incompatible) => (
                AppPhase::ReportingIncompatible,
                AppAction::ReportIncompatible,
            ),
            (AppPhase::ReportingIncompatible, AppEvent::Done) => (
                AppPhase::Finished,
                AppAction::Fail(AppInstallError::Incompatible),
            ),
            (AppPhase::Reading, AppEvent::Payload(payload)) => {
                let step = Self::enter_payload(&self.apps, &self.generations, &payload);
                self.payload = Some(payload);
                step
            },
            (AppPhase::Reading, AppEvent::End) => match find_next(&self.generations, 0) {
                Some(app) => self.completing(app, request),
                None => (AppPhase::Finished, AppAction::Done),
            },
            (AppPhase::Creating { app }, AppEvent::Created { generation }) => {
                self.generations.set(app, Some(generation));
                self.complete.set(app, false);
                Self::content(app, self.payload.as_ref().unwrap())
            },
            (AppPhase::CheckingLinks { app }, AppEvent::Done) => (
                AppPhase::CreatingParent { app },
                AppAction::CreateParent { app },
            ),
            (AppPhase::CreatingParent { app }, AppEvent::Done) => Self::file_blocks(
                app,
                request,
                self.payload.as_ref().unwrap(),
            ),
            (AppPhase::ProvidingBlocks { app }, AppEvent::Done) => Self::write_file(
                app,
                self.payload.as_ref().unwrap(),
            ),
            (AppPhase::FindingCandidates { app }, AppEvent::Candidates(candidates)) => {
                let payload = self.payload.as_ref().unwrap();
                let delta = payload.delta_encoding.as_ref().unwrap();
                match find_delta_candidate(&candidates, &delta.inputs[0]) {
                    Some(candidate) => (
                        AppPhase::Writing { app, delta: true },
                        AppAction::WriteDelta { app, candidate },
                    ),
                    None => (
                        AppPhase::Finished,
                        AppAction::Fail(AppInstallError::NoDeltaSource),
                    ),
                }
            },
            (AppPhase::Writing { app, delta }, AppEvent::Written { digest, size }) => {
                let payload = self.payload.as_ref().unwrap();
                let intact = if delta {
                    digest.equals(&payload.delta_encoding.as_ref().unwrap().original_hash)
                } else {
                    true
                };
                if intact {
                    let step = Self::mode(app, payload);
                    let path = match &payload.kind {
                        AppPayloadKind::File { path, .. } => path.clone(),
                        _ => String::new(),
                    };
                    let ghost before = self.states@;
                    let state = FileState { path, hash: digest, size };
                    let ghost added = state;
                    self.states[app].push(state);
                    assert(self.states@[app as int]@.drop_last() =~= before[app as int]@);
                    assert(self.states@[app as int]@.last() == added);
                    step
                } else {
                    (AppPhase::Finished, AppAction::Fail(AppInstallError::HashMismatch))
                }
            },
            (AppPhase::SettingMode { .. }, AppEvent::Done) => (
                AppPhase::Reading,
                AppAction::NextPayload,
            ),
            (AppPhase::CreatingTemporary { app }, AppEvent::Done) => Self::decode(
                app,
                request,
                self.payload.as_ref().unwrap(),
            ),
            (AppPhase::DecodingArchive { app }, AppEvent::Done) => (
                AppPhase::ValidatingArchive { app },
                AppAction::ValidateArchive { app },
            ),
            (AppPhase::ValidatingArchive { app }, AppEvent::Done) => (
                AppPhase::Unpacking { app },
                AppAction::Unpack { app },
            ),
            (AppPhase::Unpacking { .. }, AppEvent::Done) => (
                AppPhase::Reading,
                AppAction::NextPayload,
            ),
            (AppPhase::Skipping, AppEvent::Done) => (AppPhase::Reading, AppAction::NextPayload),
            (AppPhase::SavingStates { app }, AppEvent::Done) => Self::metadata(app, request),
            (AppPhase::WritingComponents { app }, AppEvent::Done) => (
                AppPhase::WritingMetadata { app },
                AppAction::WriteMetadata { app },
            ),
            (AppPhase::WritingMetadata { app }, AppEvent::Done) => (
                AppPhase::Finalizing { app },
                AppAction::Finalize { app },
            ),
            (AppPhase::Finalizing { app }, AppEvent::Done) => {
                self.complete.set(app, true);
                self.completed(app, request)
            },
            (AppPhase::ReadingCurrent { app }, AppEvent::Current { generation }) => {
                self.previous.set(app, generation);
                match find_next(&self.generations, app + 1) {
                    Some(other) => (
                        AppPhase::ReadingCurrent { app: other },
                        AppAction::ReadCurrent { app: other },
                    ),
                    None => match find_next(&self.generations, 0) {
                        Some(first) => self.activating(first),
                        None => (
                            AppPhase::Finished,
                            AppAction::Fail(AppInstallError::UnexpectedOutcome),
                        ),
                    },
                }
            },
            (AppPhase::Activating { app }, AppEvent::Done) => self.activated(app, request),
            (AppPhase::RollingBack { failed, app }, AppEvent::Done) => {
                self.record_rollback(failed, app, true);
                self.rolling_back(failed, app)
            },
            _ => (
                AppPhase::Finished,
                AppAction::Fail(AppInstallError::UnexpectedOutcome),
            ),
        };
        self.phase = step.0;
        step.1
    }
}

/// A bundle whose payloads are not those of an app bundle changes nothing, whatever comes of
/// the actions.
pub proof fn law_invalid_app_bundle_changes_nothing(
    install: AppInstall,
    request: AppInstallRequest,
    event: AppEvent,
)
    requires
        install.wf(request),
        app_bundle_error(request.deliveries@) is Some,
    ensures
        !install.step(request, event).1.changes_apps(),
{
}

proof fn lemma_created_down(generations: Seq<Option<u64>>, from: nat, before: nat, end: nat)
    requires
        from <= before <= end,
        forall|k: int| from <= k < before ==> generations[k] is None,
    ensures
        created_down(generations, from, end) == created_down(generations, before, end),
    decreases before - from,
{
    if from < before {
        lemma_created_down(generations, from + 1, before, end);
    }
}

/// The app that is found has a generation, and none after it has one.
pub proof fn lemma_previous_created(generations: Seq<Option<u64>>, before: nat)
    requires
        before <= generations.len() <= usize::MAX,
    ensures
        match previous_created(generations, before) {
            Some(i) => i < before && generations[i as int] is Some && forall|k: int|
                i < k < before ==> generations[k] is None,
            None => forall|k: int| 0 <= k < before ==> generations[k] is None,
        },
    decreases before,
{
    if before > 0 && generations[before - 1] is None {
        lemma_previous_created(generations, (before - 1) as nat);
    }
}

/// Where an app cannot be activated in an operation, every app before it that has a new
/// generation is rolled back to what was active before, the last one first and whatever comes
/// of the others, and only then the failure is reported.
pub proof fn law_failed_activation_rolls_back_earlier_apps(
    install: AppInstall,
    request: AppInstallRequest,
    failed: usize,
    before: usize,
    event: AppEvent,
)
    requires
        install.wf(request),
        install.apps@.len() <= usize::MAX,
        request.flow == InstallFlow::Operation,
        ({
            ||| install.phase == AppPhase::Activating { app: failed } && before == failed
                && event is Failed
            ||| install.phase == (AppPhase::RollingBack { failed, app: before }) && (event is Done
                || event is Failed)
        }),
    ensures
        match install.step(request, event) {
            (AppPhase::RollingBack { failed: f, app }, AppAction::RollBack { app: a, previous }) => {
                &&& f == failed
                &&& a == app
                &&& app < before
                &&& install.generations@[app as int] is Some
                &&& previous == install.previous@[app as int]
                &&& forall|k: int| app < k < before ==> install.generations@[k] is None
            },
            (AppPhase::Finished, AppAction::Fail(e)) => {
                &&& e == AppInstallError::ActivationFailed { app: failed }
                &&& forall|k: int| 0 <= k < before ==> install.generations@[k] is None
            },
            _ => false,
        },
{
    lemma_previous_created(install.generations@, before as nat);
}

proof fn lemma_delta_candidate(
    candidates: Seq<DeltaCandidate>,
    hashes: Seq<HashDigest>,
    from: nat,
)
    requires
        candidates.len() <= usize::MAX,
    ensures
        match delta_candidate(candidates, hashes, from) {
            Some(i) => from <= i < candidates.len() && is_delta_input(candidates[i as int], hashes)
                && forall|k: int| from <= k < i ==> !is_delta_input(#[trigger] candidates[k], hashes),
            None => forall|k: int|
                from <= k < candidates.len() ==> !is_delta_input(#[trigger] candidates[k], hashes),
        },
    decreases candidates.len() - from,
{
    if from < candidates.len() && !is_delta_input(candidates[from as int], hashes) {
        lemma_delta_candidate(candidates, hashes, from + 1);
    }
}

/// A difference is applied to the first file that is known to be its input, of a generation
/// that is complete and where the file is there. There is none where no file is.
pub proof fn law_file_delta_is_applied_to_its_input(
    candidates: Seq<DeltaCandidate>,
    hashes: Seq<HashDigest>,
)
    requires
        candidates.len() <= usize::MAX,
    ensures
        match delta_candidate(candidates, hashes, 0) {
            Some(i) => i < candidates.len() && candidates[i as int].complete
                && candidates[i as int].present && is_delta_input(candidates[i as int], hashes)
                && forall|k: int| 0 <= k < i ==> !is_delta_input(#[trigger] candidates[k], hashes),
            None => forall|k: int|
                0 <= k < candidates.len() ==> !is_delta_input(#[trigger] candidates[k], hashes),
        },
{
    lemma_delta_candidate(candidates, hashes, 0);
}

proof fn lemma_app_position(apps: Seq<Seq<char>>, app: Seq<char>, from: nat)
    requires
        apps.len() <= usize::MAX,
    ensures
        match app_position(apps, app, from) {
            Some(i) => from <= i < apps.len() && apps[i as int] == app,
            None => forall|k: int| from <= k < apps.len() ==> #[trigger] apps[k] != app,
        },
    decreases apps.len() - from,
{
    if from < apps.len() && apps[from as int] != app {
        lemma_app_position(apps, app, from + 1);
    }
}

/// An app is found where it is one of the apps of the bundle, and only there.
pub proof fn law_app_is_found_by_its_name(apps: Seq<Seq<char>>, app: Seq<char>)
    requires
        apps.len() <= usize::MAX,
    ensures
        match app_position(apps, app, 0) {
            Some(i) => i < apps.len() && apps[i as int] == app,
            None => !apps.contains(app),
        },
{
    lemma_app_position(apps, app, 0);
}

} // verus!
