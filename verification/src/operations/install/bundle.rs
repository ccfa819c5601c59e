//! Installation of a bundle, from the choice of its source to the reboot.

use vstd::prelude::*;
use crate::config::Config;
use crate::digest::{copy_bytes, HashDigest};
use crate::http_source::RetryConfig;
use crate::operations::install::system::{InstallFlow, SystemRebootMode};
use crate::system::boot_groups::{group_named, inactive_group, BootGroups};
use crate::text::{concat, has_prefix, opt_view, same, strip_prefix};

verus! {

/// Destination and target-specific settings for a bundle installation.
#[derive(Debug)]
pub enum InstallTarget {
    /// Install application payloads.
    Apps,
    /// Install system payloads.
    System { reboot: Option<SystemRebootMode>, keep_overlay: bool, boot_group: Option<String> },
}

/// Source of a bundle installation.
#[derive(Debug)]
pub enum InstallSource {
    /// Read the bundle from the operation input stream.
    Stream,
    /// Fetch the bundle over HTTP.
    Http { url: String, disable_range_queries: bool, retry: RetryConfig },
}

/// Bundle data supplied alongside an install operation.
#[derive(Debug, Clone, Copy, PartialEq, Eq, Structural)]
pub enum BundleInput {
    /// The bundle source does not require a data stream.
    Nothing,
    /// A sequential input stream, such as standard input or a socket.
    Stream,
    /// A seekable input stream, such as a local file.
    Seekable,
}

/// What a bundle holds.
#[derive(Debug, Clone, Copy, PartialEq, Eq, Structural)]
pub enum BundleKind {
    App,
    System,
}

impl BundleKind {
    /// The name of the kind.
    pub open spec fn scope_text(self) -> Seq<char> {
        match self {
            BundleKind::App => "app"@,
            BundleKind::System => "system"@,
        }
    }

    /// The name of the kind.
    pub fn scope(self) -> (r: &'static str)
        ensures
            r@ == self.scope_text(),
    {
        match self {
            BundleKind::App => "app",
            BundleKind::System => "system",
        }
    }
}

impl InstallTarget {
    /// What a bundle for this target holds.
    pub fn kind(&self) -> (r: BundleKind)
        ensures
            r is App == (self is Apps),
    {
        match self {
            InstallTarget::Apps => BundleKind::App,
            InstallTarget::System { .. } => BundleKind::System,
        }
    }
}

/// Where a bundle that is named on the command line comes from.
#[derive(Debug, Clone, Copy, PartialEq, Eq, Structural)]
pub enum BundleLocation {
    Http,
    Stdin,
    File,
}

/// Where a bundle comes from: a URL, `-` for standard input, or a file.
pub open spec fn bundle_location(bundle: Seq<char>) -> BundleLocation {
    if has_prefix(bundle, "http"@) {
        BundleLocation::Http
    } else if bundle == "-"@ {
        BundleLocation::Stdin
    } else {
        BundleLocation::File
    }
}

/// Decides where a bundle comes from.
pub fn locate_bundle(bundle: &str) -> (r: BundleLocation)
    ensures
        r == bundle_location(bundle@),
{
    if strip_prefix(bundle, "http").is_some() {
        BundleLocation::Http
    } else if same(bundle, "-") {
        BundleLocation::Stdin
    } else {
        BundleLocation::File
    }
}

/// How a bundle is read.
#[derive(Debug, Clone, Copy, PartialEq, Eq, Structural)]
pub enum SourcePlan {
    /// From a stream; what is skipped is read.
    SkipByReading,
    /// From a file; what is skipped is seeked over.
    SkipBySeeking,
    /// Over HTTP, with range queries or without.
    Http { use_range_queries: bool },
}

/// Why a bundle cannot be read.
#[derive(Debug, Clone, Copy, PartialEq, Eq, Structural)]
pub enum SourceError {
    /// Bundle input stream is required.
    InputRequired,
    /// HTTP bundle source does not accept an input stream.
    UnexpectedInput,
}

/// How the bundle is read, or why it cannot be.
pub open spec fn source_plan(
    source: InstallSource,
    input: BundleInput,
    range_queries_available: bool,
) -> Result<SourcePlan, SourceError> {
    match source {
        InstallSource::Stream => match input {
            BundleInput::Nothing => Err(SourceError::InputRequired),
            BundleInput::Stream => Ok(SourcePlan::SkipByReading),
            BundleInput::Seekable => Ok(SourcePlan::SkipBySeeking),
        },
        InstallSource::Http { disable_range_queries, .. } => if input is Nothing {
            Ok(
                SourcePlan::Http {
                    use_range_queries: range_queries_available && !disable_range_queries,
                },
            )
        } else {
            Err(SourceError::UnexpectedInput)
        },
    }
}

/// Decides how the bundle is read.
pub fn choose_source(
    source: &InstallSource,
    input: BundleInput,
    range_queries_available: bool,
) -> (r: Result<SourcePlan, SourceError>)
    ensures
        r == source_plan(*source, input, range_queries_available),
{
    match source {
        InstallSource::Stream => match input {
            BundleInput::Nothing => Err(SourceError::InputRequired),
            BundleInput::Stream => Ok(SourcePlan::SkipByReading),
            BundleInput::Seekable => Ok(SourcePlan::SkipBySeeking),
        },
        InstallSource::Http { disable_range_queries, .. } => match input {
            BundleInput::Nothing => Ok(
                SourcePlan::Http {
                    use_range_queries: range_queries_available && !*disable_range_queries,
                },
            ),
            _ => Err(SourceError::UnexpectedInput),
        },
    }
}

/// Whether a policy requires that bundles declare components.
pub open spec fn components_required(config: Config) -> bool {
    config.compatibility is Some && config.compatibility->0.require_bundle_components == Some(true)
}

/// Whether bundles must declare components. Unless configured, they need not.
pub fn requires_bundle_components(config: &Config) -> (r: bool)
    ensures
        r == components_required(*config),
{
    match &config.compatibility {
        Some(compatibility) => match compatibility.require_bundle_components {
            Some(required) => required,
            None => false,
        },
        None => false,
    }
}

/// What is said of a bundle that does not declare required components.
pub open spec fn policy_message(bundle_kind: Seq<char>) -> Seq<char> {
    bundle_kind
        + " bundle does not declare required component metadata; use --skip-compatibility-check to bypass the configured policy"@
}

/// Refuses a bundle that does not declare components where the policy requires it.
pub fn enforce_bundle_component_policy(
    config: &Config,
    components_present: bool,
    bundle_kind: &str,
) -> (r: Result<(), String>)
    ensures
        r is Err == (!components_present && components_required(*config)),
        r matches Err(message) ==> message@ == policy_message(bundle_kind@),
{
    if !components_present && requires_bundle_components(config) {
        return Err(
            concat(
                bundle_kind,
                " bundle does not declare required component metadata; use --skip-compatibility-check to bypass the configured policy",
            ),
        );
    }
    Ok(())
}

/// The target of an operation that cannot do without one.
pub fn require_update_target<T: Copy>(target: Option<T>, operation: &str) -> (r: Result<T, String>)
    ensures
        match r {
            Ok(value) => target == Some(value),
            Err(message) => target is None && message@ == operation@
                + " requires a target boot group"@,
        },
{
    match target {
        Some(value) => Ok(value),
        None => Err(concat(operation, " requires a target boot group")),
    }
}

/// A trusted root certificate.
#[derive(Debug)]
pub enum SignatureRoot {
    /// In a file.
    ConfiguredPath(String),
    /// Given with the request.
    ExplicitCertificate(Vec<u8>),
}

/// Whether the roots are those of the configuration, in its order.
pub open spec fn are_configured(roots: Seq<SignatureRoot>, config: Config) -> bool {
    match config.signatures {
        Some(signatures) => {
            &&& roots.len() == signatures.roots@.len()
            &&& forall|i: int|
                0 <= i < roots.len() ==> ((#[trigger] roots[i]) matches SignatureRoot::ConfiguredPath(
                    path,
                ) && path@ == signatures.roots@[i]@)
        },
        None => roots.len() == 0,
    }
}

/// The roots to verify signatures by: the given certificate where there is one, else
/// all configured ones.
pub fn configured_signature_roots(config: &Config, explicit: Option<&Vec<u8>>) -> (r: Vec<
    SignatureRoot,
>)
    ensures
        match explicit {
            Some(certificate) => r@.len() == 1 && (r@[0] matches SignatureRoot::ExplicitCertificate(
                bytes,
            ) && bytes@ == certificate@),
            None => are_configured(r@, *config),
        },
{
    let mut roots: Vec<SignatureRoot> = Vec::new();
    if let Some(certificate) = explicit {
        roots.push(SignatureRoot::ExplicitCertificate(copy_bytes(certificate.as_slice())));
        return roots;
    }
    if let Some(signatures) = &config.signatures {
        let mut i: usize = 0;
        while i < signatures.roots.len()
            invariant
                i <= signatures.roots@.len(),
                roots@.len() == i,
                forall|j: int|
                    0 <= j < i ==> ((#[trigger] roots@[j]) matches SignatureRoot::ConfiguredPath(
                        path,
                    ) && path@ == signatures.roots@[j]@),
            decreases signatures.roots@.len() - i,
        {
            roots.push(SignatureRoot::ConfiguredPath(signatures.roots[i].clone()));
            i = i + 1;
        }
    }
    roots
}

/// The root that the commands verify signatures by: the given path where there is
/// one, else the first configured one.
pub fn command_signature_root(config: &Config, explicit: &Option<String>) -> (r: Option<String>)
    ensures
        match *explicit {
            Some(path) => r matches Some(root) && root@ == path@,
            None => match config.signatures {
                Some(signatures) => if signatures.roots@.len() > 0 {
                    r matches Some(root) && root@ == signatures.roots@[0]@
                } else {
                    r is None
                },
                None => r is None,
            },
        },
{
    if let Some(path) = explicit {
        return Some(path.clone());
    }
    if let Some(signatures) = &config.signatures {
        if signatures.roots.len() > 0 {
            return Some(signatures.roots[0].clone());
        }
    }
    None
}

/// What came of checking a signature against a root.
#[derive(Debug)]
pub enum SignatureCheck {
    /// The root does not accept the signature.
    Rejected,
    /// The root accepts the signature, but what it signs cannot be decoded.
    Undecodable,
    /// The root accepts the signature; the signed digest of the header, and the
    /// digest of the header of the bundle by the same algorithm.
    Signed { signed: HashDigest, found: HashDigest },
}

impl SignatureCheck {
    /// Whether the signature is one of the bundle.
    pub open spec fn valid(self) -> bool {
        self matches SignatureCheck::Signed { signed, found } && signed@ == found@
    }

    /// Whether the signature is one of the bundle.
    pub fn is_valid(&self) -> (r: bool)
        ensures
            r == self.valid(),
    {
        match self {
            SignatureCheck::Signed { signed, found } => signed.equals(found),
            _ => false,
        }
    }
}

/// Whether one of the checks found a valid signature.
pub open spec fn any_valid(checks: Seq<Vec<SignatureCheck>>) -> bool {
    exists|i: int, j: int|
        0 <= i < checks.len() && 0 <= j < checks[i]@.len() && (#[trigger] checks[i]@[j]).valid()
}

/// Whether the signatures of a bundle verify it: there is a root, there are
/// signatures, and one of the roots that could be loaded accepts one of them for the
/// header of the bundle. `results` holds, for each signature, the checks against those
/// roots.
pub fn verify_bundle_signature(
    root_count: usize,
    results: Option<&Vec<Vec<SignatureCheck>>>,
) -> (r: bool)
    ensures
        r == (root_count > 0 && results is Some && any_valid((*results->0)@)),
{
    if root_count == 0 {
        return false;
    }
    let checks = match results {
        Some(checks) => checks,
        None => return false,
    };
    let mut i: usize = 0;
    while i < checks.len()
        invariant
            i <= checks@.len(),
            root_count > 0,
            results == Some(checks),
            forall|a: int, b: int|
                0 <= a < i && 0 <= b < checks@[a]@.len() ==> !(#[trigger] checks@[a]@[b]).valid(),
        decreases checks@.len() - i,
    {
        let mut j: usize = 0;
        while j < checks[i].len()
            invariant
                i < checks@.len(),
                root_count > 0,
                results == Some(checks),
                j <= checks@[i as int]@.len(),
                forall|b: int| 0 <= b < j ==> !(#[trigger] checks@[i as int]@[b]).valid(),
            decreases checks@[i as int]@.len() - j,
        {
            if checks[i][j].is_valid() {
                assert(checks@[i as int]@[j as int].valid());
                return true;
            }
            j = j + 1;
        }
        i = i + 1;
    }
    false
}

/// What the commands make of the signatures from `from` on: the first one that is
/// valid or cannot be decoded decides.
pub open spec fn first_decisive(checks: Seq<SignatureCheck>, from: nat) -> Result<bool, ()>
    decreases checks.len() - from,
{
    if from >= checks.len() {
        Ok(false)
    } else if checks[from as int] is Undecodable {
        Err(())
    } else if checks[from as int].valid() {
        Ok(true)
    } else {
        first_decisive(checks, from + 1)
    }
}

/// Whether the signatures of a bundle verify it by a single root. An error means that
/// signed metadata could not be decoded.
pub fn verify_by_root(has_root: bool, results: Option<&Vec<SignatureCheck>>) -> (r: Result<
    bool,
    (),
>)
    ensures
        r == if has_root && results is Some {
            first_decisive((*results->0)@, 0)
        } else {
            Ok(false)
        },
{
    if !has_root {
        return Ok(false);
    }
    let checks = match results {
        Some(checks) => checks,
        None => return Ok(false),
    };
    let mut i: usize = 0;
    while i < checks.len()
        invariant
            i <= checks@.len(),
            has_root,
            results == Some(checks),
            first_decisive(checks@, 0) == first_decisive(checks@, i as nat),
        decreases checks@.len() - i,
    {
        match &checks[i] {
            SignatureCheck::Undecodable => {
                return Err(());
            },
            _ => {},
        }
        if checks[i].is_valid() {
            return Ok(true);
        }
        i = i + 1;
    }
    Ok(false)
}

/// Why no group can be installed to.
#[derive(Debug, Clone, Copy, PartialEq, Eq, Structural)]
pub enum SelectError {
    /// The system needs to be committed before installing an update.
    NeedsCommit,
    /// There is no group of the requested name.
    UnknownGroup,
    /// The selected group is active.
    ActiveGroup { group: usize },
}

/// The group to install to. Without a request it is the first inactive one of at most
/// two groups.
pub open spec fn selected_group(
    groups: BootGroups,
    requested: Option<Seq<char>>,
    needs_commit: bool,
) -> Result<Option<usize>, SelectError> {
    if needs_commit {
        Err(SelectError::NeedsCommit)
    } else {
        match requested {
            Some(name) => match group_named(groups.groups@, name, 0) {
                None => Err(SelectError::UnknownGroup),
                Some(group) => if groups.groups@[group as int].active {
                    Err(SelectError::ActiveGroup { group })
                } else {
                    Ok(Some(group))
                },
            },
            None => if groups.groups@.len() > 2 {
                Ok(None)
            } else {
                Ok(inactive_group(groups.groups@, 0))
            },
        }
    }
}

/// Selects the group to install to. It is never the active one.
pub fn select_boot_group(groups: &BootGroups, requested: &Option<String>, needs_commit: bool) -> (r:
    Result<Option<usize>, SelectError>)
    ensures
        r == selected_group(*groups, opt_view(*requested), needs_commit),
        r matches Ok(Some(group)) ==> group < groups.groups@.len()
            && !groups.groups@[group as int].active,
{
    if needs_commit {
        return Err(SelectError::NeedsCommit);
    }
    match requested {
        Some(name) => match groups.find_by_name(name.as_str()) {
            None => Err(SelectError::UnknownGroup),
            Some(group) => if groups.groups[group].active {
                Err(SelectError::ActiveGroup { group })
            } else {
                Ok(Some(group))
            },
        },
        None => if groups.groups.len() > 2 {
            Ok(None)
        } else {
            Ok(groups.find_inactive())
        },
    }
}

/// Why the installation of a bundle failed.
#[derive(Debug, Clone, Copy, PartialEq, Eq, Structural)]
pub enum BundleRunError {
    Select(SelectError),
    Source(SourceError),
    /// Bundle verification failed, refusing to install the bundle.
    Unverified(BundleKind),
    /// What follows the installation requires a target boot group.
    MissingTarget(SystemRebootMode),
    /// The last action failed.
    ActionFailed,
    /// The outcome is not one of the last action.
    UnexpectedOutcome,
}

/// What the installation of a bundle wants done next.
#[derive(Debug, Clone, Copy, PartialEq, Eq, Structural)]
pub enum BundleRunAction {
    /// Take the lock that keeps updates apart.
    LockUpdate,
    /// Report that the installation has started.
    EmitStarted,
    /// Open the app manager.
    OpenAppManager,
    /// Find the slots and groups of the system, and whether it needs a commit.
    InitializeSystem,
    /// Find out whether there is a block index of any slot.
    QueryIndices,
    /// Open the bundle.
    OpenSource(SourcePlan),
    /// Read the header of the bundle, and verify its digest where one is given.
    StartReader,
    /// Check the signatures of the bundle.
    VerifySignatures,
    /// Install the payloads.
    InstallPayloads { target: Option<usize> },
    /// Tell the boot flow to try a group next.
    SetTryNext { group: usize },
    /// Reboot.
    Reboot,
    /// Remember the group for the next boot.
    DeferTarget { group: usize },
    /// Remember that the spare group is to be booted on the next boot.
    DeferSpare,
    /// The installation is over.
    Done,
    /// The installation failed.
    Fail(BundleRunError),
}

/// Outcome of an action.
#[derive(Debug, Clone, Copy, PartialEq, Eq, Structural)]
pub enum BundleRunEvent {
    /// The action succeeded.
    Done,
    /// The action failed.
    Failed,
    /// Whether there is a block index of any slot.
    Indices(bool),
    /// Whether the signatures verify the bundle.
    Verified(bool),
    /// The payloads are installed; what to do next unless told otherwise.
    Installed(SystemRebootMode),
}

/// Progress of the installation of a bundle.
#[derive(Debug, Clone, Copy, PartialEq, Eq, Structural)]
pub enum BundleRunPhase {
    Locking,
    Announcing,
    OpeningManager,
    Initializing,
    QueryingIndices,
    OpeningSource,
    StartingReader,
    Verifying,
    Installing,
    SettingNext { reboot: bool },
    Rebooting,
    Deferring,
    Finished,
}

/// What is to be installed, and how.
#[derive(Debug)]
pub struct BundleRunRequest {
    pub flow: InstallFlow,
    pub source: InstallSource,
    pub input: BundleInput,
    pub target: InstallTarget,
    /// Whether the digest of the bundle is given.
    pub has_bundle_hash: bool,
    pub insecure_skip_bundle_verification: bool,
}

/// The installation of a bundle.
#[derive(Debug)]
pub struct BundleRun {
    pub phase: BundleRunPhase,
    /// Boot group to install to.
    pub target: Option<usize>,
}

/// A phase and the action that begins it.
pub type BundleRunStep = (BundleRunPhase, BundleRunAction);

/// The end of an installation that failed.
pub open spec fn run_failed(error: BundleRunError) -> BundleRunStep {
    (BundleRunPhase::Finished, BundleRunAction::Fail(error))
}

impl BundleRunRequest {
    /// The boot group that is asked for.
    pub open spec fn requested_group(self) -> Option<Seq<char>> {
        match self.target {
            InstallTarget::Apps => None,
            InstallTarget::System { boot_group, .. } => opt_view(boot_group),
        }
    }

    pub open spec fn kind_of(self) -> BundleKind {
        if self.target is Apps {
            BundleKind::App
        } else {
            BundleKind::System
        }
    }

    /// The first step.
    pub open spec fn first(self) -> BundleRunStep {
        match (self.target, self.flow) {
            (InstallTarget::Apps, InstallFlow::Operation) => (
                BundleRunPhase::Announcing,
                BundleRunAction::EmitStarted,
            ),
            (InstallTarget::Apps, InstallFlow::Command) => (
                BundleRunPhase::OpeningManager,
                BundleRunAction::OpenAppManager,
            ),
            (InstallTarget::System { .. }, _) => (
                BundleRunPhase::Locking,
                BundleRunAction::LockUpdate,
            ),
        }
    }

    /// The step that opens the bundle.
    pub open spec fn to_source(self, range_queries_available: bool) -> BundleRunStep {
        match source_plan(self.source, self.input, range_queries_available) {
            Ok(plan) => (BundleRunPhase::OpeningSource, BundleRunAction::OpenSource(plan)),
            Err(e) => run_failed(BundleRunError::Source(e)),
        }
    }

    /// The step after the target is known: for system bundles over HTTP, block indices
    /// decide whether range queries are of use.
    pub open spec fn to_indices(self) -> BundleRunStep {
        if self.source is Http && self.target is System {
            (BundleRunPhase::QueryingIndices, BundleRunAction::QueryIndices)
        } else {
            self.to_source(false)
        }
    }

    /// The step after it is known whether the bundle is verified.
    pub open spec fn to_install(self, verified: bool, target: Option<usize>) -> BundleRunStep {
        if verified || self.insecure_skip_bundle_verification {
            (BundleRunPhase::Installing, BundleRunAction::InstallPayloads { target })
        } else {
            run_failed(BundleRunError::Unverified(self.kind_of()))
        }
    }

    /// The step after the payloads are installed.
    pub open spec fn to_completion(
        self,
        default_mode: SystemRebootMode,
        target: Option<usize>,
    ) -> BundleRunStep {
        match self.target {
            InstallTarget::Apps => (BundleRunPhase::Finished, BundleRunAction::Done),
            InstallTarget::System { reboot, .. } => {
                let mode = match reboot {
                    Some(mode) => mode,
                    None => default_mode,
                };
                match (mode, target) {
                    (SystemRebootMode::No, _) => (BundleRunPhase::Finished, BundleRunAction::Done),
                    (SystemRebootMode::Deferred, _) if self.flow == InstallFlow::Command => (
                        BundleRunPhase::Deferring,
                        BundleRunAction::DeferSpare,
                    ),
                    (mode, None) => run_failed(BundleRunError::MissingTarget(mode)),
                    (SystemRebootMode::Yes, Some(group)) => (
                        BundleRunPhase::SettingNext { reboot: true },
                        BundleRunAction::SetTryNext { group },
                    ),
                    (SystemRebootMode::SetNext, Some(group)) => (
                        BundleRunPhase::SettingNext { reboot: false },
                        BundleRunAction::SetTryNext { group },
                    ),
                    (SystemRebootMode::Deferred, Some(group)) => (
                        BundleRunPhase::Deferring,
                        BundleRunAction::DeferTarget { group },
                    ),
                }
            },
        }
    }
}

impl BundleRun {
    /// The step that follows an outcome.
    pub open spec fn step(self, request: BundleRunRequest, event: BundleRunEvent) -> BundleRunStep {
        if event is Failed {
            run_failed(BundleRunError::ActionFailed)
        } else {
            match (self.phase, event) {
                (BundleRunPhase::Locking, BundleRunEvent::Done) => match request.flow {
                    InstallFlow::Operation => (
                        BundleRunPhase::Announcing,
                        BundleRunAction::EmitStarted,
                    ),
                    InstallFlow::Command => (
                        BundleRunPhase::Initializing,
                        BundleRunAction::InitializeSystem,
                    ),
                },
                (BundleRunPhase::Announcing, BundleRunEvent::Done) => if request.target is Apps {
                    (BundleRunPhase::OpeningManager, BundleRunAction::OpenAppManager)
                } else {
                    (BundleRunPhase::Initializing, BundleRunAction::InitializeSystem)
                },
                (BundleRunPhase::OpeningManager, BundleRunEvent::Done) => request.to_indices(),
                (BundleRunPhase::QueryingIndices, BundleRunEvent::Indices(available)) => request.to_source(
                    available,
                ),
                (BundleRunPhase::OpeningSource, BundleRunEvent::Done) => (
                    BundleRunPhase::StartingReader,
                    BundleRunAction::StartReader,
                ),
                (BundleRunPhase::StartingReader, BundleRunEvent::Done) => if request.has_bundle_hash {
                    request.to_install(true, self.target)
                } else {
                    (BundleRunPhase::Verifying, BundleRunAction::VerifySignatures)
                },
                (BundleRunPhase::Verifying, BundleRunEvent::Verified(valid)) => request.to_install(
                    valid,
                    self.target,
                ),
                (BundleRunPhase::Installing, BundleRunEvent::Installed(mode)) => request.to_completion(
                    mode,
                    self.target,
                ),
                (BundleRunPhase::SettingNext { reboot }, BundleRunEvent::Done) => if reboot {
                    (BundleRunPhase::Rebooting, BundleRunAction::Reboot)
                } else {
                    (BundleRunPhase::Finished, BundleRunAction::Done)
                },
                (BundleRunPhase::Rebooting, BundleRunEvent::Done) => (
                    BundleRunPhase::Finished,
                    BundleRunAction::Done,
                ),
                (BundleRunPhase::Deferring, BundleRunEvent::Done) => (
                    BundleRunPhase::Finished,
                    BundleRunAction::Done,
                ),
                _ => run_failed(BundleRunError::UnexpectedOutcome),
            }
        }
    }

    /// Begins an installation.
    pub fn begin(request: &BundleRunRequest) -> (r: (BundleRun, BundleRunAction))
        ensures
            (r.0.phase, r.1) == request.first(),
            r.0.target is None,
    {
        let (phase, action) = match (&request.target, request.flow) {
            (InstallTarget::Apps, InstallFlow::Operation) => (
                BundleRunPhase::Announcing,
                BundleRunAction::EmitStarted,
            ),
            (InstallTarget::Apps, InstallFlow::Command) => (
                BundleRunPhase::OpeningManager,
                BundleRunAction::OpenAppManager,
            ),
            (InstallTarget::System { .. }, _) => (
                BundleRunPhase::Locking,
                BundleRunAction::LockUpdate,
            ),
        };
        (BundleRun { phase, target: None }, action)
    }

    fn to_source(request: &BundleRunRequest, range_queries_available: bool) -> (r: BundleRunStep)
        ensures
            r == request.to_source(range_queries_available),
    {
        match choose_source(&request.source, request.input, range_queries_available) {
            Ok(plan) => (BundleRunPhase::OpeningSource, BundleRunAction::OpenSource(plan)),
            Err(e) => (
                BundleRunPhase::Finished,
                BundleRunAction::Fail(BundleRunError::Source(e)),
            ),
        }
    }

    fn to_indices(request: &BundleRunRequest) -> (r: BundleRunStep)
        ensures
            r == request.to_indices(),
    {
        match (&request.source, &request.target) {
            (InstallSource::Http { .. }, InstallTarget::System { .. }) => (
                BundleRunPhase::QueryingIndices,
                BundleRunAction::QueryIndices,
            ),
            _ => Self::to_source(request, false),
        }
    }

    fn to_install(request: &BundleRunRequest, verified: bool, target: Option<usize>) -> (r:
        BundleRunStep)
        ensures
            r == request.to_install(verified, target),
    {
        if verified || request.insecure_skip_bundle_verification {
            (BundleRunPhase::Installing, BundleRunAction::InstallPayloads { target })
        } else {
            (
                BundleRunPhase::Finished,
                BundleRunAction::Fail(BundleRunError::Unverified(request.target.kind())),
            )
        }
    }

    fn to_completion(
        request: &BundleRunRequest,
        default_mode: SystemRebootMode,
        target: Option<usize>,
    ) -> (r: BundleRunStep)
        ensures
            r == request.to_completion(default_mode, target),
    {
        let reboot = match &request.target {
            InstallTarget::Apps => {
                return (BundleRunPhase::Finished, BundleRunAction::Done);
            },
            InstallTarget::System { reboot, .. } => *reboot,
        };
        let mode = match reboot {
            Some(mode) => mode,
            None => default_mode,
        };
        if mode == SystemRebootMode::No {
            return (BundleRunPhase::Finished, BundleRunAction::Done);
        }
        if mode == SystemRebootMode::Deferred && request.flow == InstallFlow::Command {
            return (BundleRunPhase::Deferring, BundleRunAction::DeferSpare);
        }
        let group = match target {
            Some(group) => group,
            None => {
                return (
                    BundleRunPhase::Finished,
                    BundleRunAction::Fail(BundleRunError::MissingTarget(mode)),
                );
            },
        };
        match mode {
            SystemRebootMode::Yes => (
                BundleRunPhase::SettingNext { reboot: true },
                BundleRunAction::SetTryNext { group },
            ),
            SystemRebootMode::SetNext => (
                BundleRunPhase::SettingNext { reboot: false },
                BundleRunAction::SetTryNext { group },
            ),
            _ => (BundleRunPhase::Deferring, BundleRunAction::DeferTarget { group }),
        }
    }

    /// Takes what is known of the system once it is initialized, and selects the group
    /// to install to.
    pub fn system_ready(
        &mut self,
        request: &BundleRunRequest,
        groups: &BootGroups,
        needs_commit: bool,
    ) -> (action: BundleRunAction)
        requires
            old(self).phase is Initializing,
            request.target is System,
        ensures
            match selected_group(*groups, request.requested_group(), needs_commit) {
                Ok(target) => {
                    &&& final(self).target == target
                    &&& (final(self).phase, action) == request.to_indices()
                    &&& target matches Some(group) ==> group < groups.groups@.len()
                        && !groups.groups@[group as int].active
                },
                Err(e) => {
                    &&& final(self).target == old(self).target
                    &&& (final(self).phase, action) == run_failed(BundleRunError::Select(e))
                },
            },
    {
        let selected = match &request.target {
            InstallTarget::System { boot_group, .. } => select_boot_group(
                groups,
                boot_group,
                needs_commit,
            ),
            InstallTarget::Apps => Ok(None),
        };
        match selected {
            Ok(target) => {
                self.target = target;
                let (phase, action) = Self::to_indices(request);
                self.phase = phase;
                action
            },
            Err(e) => {
                self.phase = BundleRunPhase::Finished;
                BundleRunAction::Fail(BundleRunError::Select(e))
            },
        }
    }

    /// Takes the outcome of the last action and names the next one.
    ///
    /// Payloads are installed only from a bundle that is verified by its digest or by
    /// a signature, unless that is explicitly waived. Only the group that was
    /// installed to is booted.
    pub fn next(&mut self, request: &BundleRunRequest, event: BundleRunEvent) -> (action:
        BundleRunAction)
        ensures
            (final(self).phase, action) == old(self).step(*request, event),
            final(self).target == old(self).target,
            action is InstallPayloads ==> request.has_bundle_hash || event
                == BundleRunEvent::Verified(true) || request.insecure_skip_bundle_verification,
            action matches BundleRunAction::SetTryNext { group } ==> final(self).target == Some(
                group,
            ),
    {
        let (phase, action) = match (self.phase, event) {
            (_, BundleRunEvent::Failed) => (
                BundleRunPhase::Finished,
                BundleRunAction::Fail(BundleRunError::ActionFailed),
            ),
            (BundleRunPhase::Locking, BundleRunEvent::Done) => match request.flow {
                InstallFlow::Operation => (
                    BundleRunPhase::Announcing,
                    BundleRunAction::EmitStarted,
                ),
                InstallFlow::Command => (
                    BundleRunPhase::Initializing,
                    BundleRunAction::InitializeSystem,
                ),
            },
            (BundleRunPhase::Announcing, BundleRunEvent::Done) => match &request.target {
                InstallTarget::Apps => (
                    BundleRunPhase::OpeningManager,
                    BundleRunAction::OpenAppManager,
                ),
                InstallTarget::System { .. } => (
                    BundleRunPhase::Initializing,
                    BundleRunAction::InitializeSystem,
                ),
            },
            (BundleRunPhase::OpeningManager, BundleRunEvent::Done) => Self::to_indices(request),
            (BundleRunPhase::QueryingIndices, BundleRunEvent::Indices(available)) => Self::to_source(
                request,
                available,
            ),
            (BundleRunPhase::OpeningSource, BundleRunEvent::Done) => (
                BundleRunPhase::StartingReader,
                BundleRunAction::StartReader,
            ),
            (BundleRunPhase::StartingReader, BundleRunEvent::Done) => if request.has_bundle_hash {
                Self::to_install(request, true, self.target)
            } else {
                (BundleRunPhase::Verifying, BundleRunAction::VerifySignatures)
            },
            (BundleRunPhase::Verifying, BundleRunEvent::Verified(valid)) => Self::to_install(
                request,
                valid,
                self.target,
            ),
            (BundleRunPhase::Installing, BundleRunEvent::Installed(mode)) => Self::to_completion(
                request,
                mode,
                self.target,
            ),
            (BundleRunPhase::SettingNext { reboot }, BundleRunEvent::Done) => if reboot {
                (BundleRunPhase::Rebooting, BundleRunAction::Reboot)
            } else {
                (BundleRunPhase::Finished, BundleRunAction::Done)
            },
            (BundleRunPhase::Rebooting, BundleRunEvent::Done) => (
                BundleRunPhase::Finished,
                BundleRunAction::Done,
            ),
            (BundleRunPhase::Deferring, BundleRunEvent::Done) => (
                BundleRunPhase::Finished,
                BundleRunAction::Done,
            ),
            _ => (
                BundleRunPhase::Finished,
                BundleRunAction::Fail(BundleRunError::UnexpectedOutcome),
            ),
        };
        self.phase = phase;
        action
    }
}

/// The group to install to is never the active one, and never chosen while the
/// running system is not committed.
pub proof fn law_active_group_is_not_selected(
    groups: BootGroups,
    requested: Option<Seq<char>>,
    needs_commit: bool,
)
    requires
        groups.groups@.len() <= usize::MAX,
    ensures
        selected_group(groups, requested, needs_commit) matches Ok(target) ==> !needs_commit,
        selected_group(groups, requested, needs_commit) matches Ok(Some(group)) ==> group
            < groups.groups@.len() && !groups.groups@[group as int].active,
{
    if requested is Some {
        lemma_group_named(groups, requested->0, 0);
    } else {
        lemma_inactive(groups, 0);
    }
}

proof fn lemma_group_named(groups: BootGroups, name: Seq<char>, from: nat)
    requires
        groups.groups@.len() <= usize::MAX,
    ensures
        group_named(groups.groups@, name, from) matches Some(i) ==> i < groups.groups@.len(),
    decreases groups.groups@.len() - from,
{
    if from < groups.groups@.len() {
        lemma_group_named(groups, name, from + 1);
    }
}

proof fn lemma_inactive(groups: BootGroups, from: nat)
    requires
        groups.groups@.len() <= usize::MAX,
    ensures
        inactive_group(groups.groups@, from) matches Some(i) ==> i < groups.groups@.len()
            && !groups.groups@[i as int].active,
    decreases groups.groups@.len() - from,
{
    if from < groups.groups@.len() {
        lemma_inactive(groups, from + 1);
    }
}

/// A bundle that is named by a URL comes over HTTP, a single dash means standard input, and
/// any other name is that of a file.
pub proof fn law_name_tells_where_a_bundle_is(name: Seq<char>, rest: Seq<char>)
    ensures
        bundle_location("http"@ + rest) is Http,
        bundle_location("-"@) is Stdin,
        bundle_location(name) is Http ==> name.len() >= 4 && name.take(4) == "http"@,
        bundle_location(name) is Stdin ==> name == "-"@,
{
    reveal_strlit("http");
    reveal_strlit("-");
    assert(("http"@ + rest).take(4) =~= "http"@);
}

/// Components are required of bundles exactly where the policy says so.
pub proof fn law_policy_decides_on_components(config: Config)
    ensures
        config.compatibility is None ==> !components_required(config),
        config.compatibility matches Some(policy) ==> match policy.require_bundle_components {
            Some(required) => components_required(config) == required,
            None => !components_required(config),
        },
{
}

} // verus!
