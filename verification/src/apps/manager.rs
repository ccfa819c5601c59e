//! Generations of applications.

use vstd::prelude::*;
use crate::apps::activation::{is_latest, latest_activation, LastActivation};
use crate::apps::lifecycle::{active_generation, Action, AppState, Record, Recovery, Switch, SwitchPhase};
use crate::apps::recover_all::{turn_to, RecoverAll, RecoverAllAction};
use crate::order::{is_number_order, is_sorted_texts, number_order, sort_strings};
use crate::path::{
    is_app_name, is_plain_segment, is_valid_app_name, join, path_join, segments,
};
use crate::text::{
    clone_opt, decimal, law_decimal_is_parsed, lemma_decimal_digits, opt_view, parse_u64, parsed,
    pieces, to_decimal, views,
};
use crate::utils::tells;

verus! {

/// Metadata of a generation.
#[derive(Debug)]
pub struct AppGeneration {
    pub number: u64,
    pub created_at: String,
    /// Time of the last activation.
    pub last_activated: Option<String>,
}

/// A generation with its completeness.
#[derive(Debug)]
pub struct ResolvedGeneration {
    /// The persisted generation metadata.
    pub meta: AppGeneration,
    /// Whether the generation is complete (has the `.rugix/complete` marker).
    pub complete: bool,
}

/// Manages app generations on the data partition.
#[derive(Debug)]
pub struct AppManager {
    /// Root directory for all apps.
    pub apps_dir: String,
    /// Resolved service manager name.
    pub service_manager: String,
}

/// What an orchestrator is asked to do.
#[derive(Debug, Clone, Copy, PartialEq, Eq, Structural)]
pub enum Operation {
    Activate,
    Deactivate,
    Start,
    Stop,
    Status,
}

/// The paths and settings that an orchestrator is given.
#[derive(Debug)]
pub struct AppContext {
    pub app_dir: String,
    pub generation_dir: String,
    pub data_dir: String,
    pub recovery: bool,
    pub service_manager: String,
}

/// One step of an operation on a generation. A failed step ends the operation.
#[derive(Debug, Clone, Copy)]
pub enum RunStep {
    /// Read the manifest of the generation.
    LoadManifest,
    /// Find the orchestrator that the manifest names.
    SelectOrchestrator,
    /// Ask the orchestrator.
    Orchestrate { operation: Operation },
    /// Note the time of the activation in the metadata of the generation.
    MarkActivated,
    /// Persist the state of the application.
    Write { record: Record },
}

/// The answer to a status query.
#[derive(Debug)]
pub enum StatusQuery {
    /// No generation is active, so the application is stopped.
    Stopped,
    /// The orchestrator of the active generation knows.
    Ask { context: AppContext },
}

/// An entry of the directory of applications.
#[derive(Debug)]
pub struct AppEntry {
    /// Name, where it is valid text.
    pub name: Option<String>,
    pub is_dir: bool,
}

/// An entry of the directory of generations of an application.
#[derive(Debug)]
pub struct GenerationEntry {
    /// Name, where it is valid text.
    pub name: Option<String>,
    /// Whether the completeness marker is there.
    pub complete: bool,
    /// Metadata, where it could be read.
    pub meta: Option<AppGeneration>,
}

/// What is found where the state of an app is persisted.
#[derive(Debug)]
pub enum StateFile {
    /// There is no such file.
    Missing,
    /// The file could not be read.
    Unreadable,
    /// The file could not be parsed.
    Unparsable,
    Parsed(AppState),
}

/// Why there is no state.
#[derive(Debug, Clone, Copy, PartialEq, Eq, Structural)]
pub enum StateFileError {
    /// Unable to read app state.
    Unreadable,
    /// Unable to parse app state.
    Unparsable,
}

/// One step of a removal. A failed step ends the removal.
#[derive(Debug, Clone, Copy, PartialEq, Eq, Structural)]
pub enum RemovalStep {
    /// Deactivate the app, which stops its workload.
    Deactivate,
    /// Remove the marker of a complete generation.
    RemoveMarker,
    /// Remove the directory.
    RemoveDirectory,
}

/// Why a generation is not activated or deactivated.
#[derive(Debug, Clone, Copy, PartialEq, Eq, Structural)]
pub enum AppsError {
    /// The generation is not complete.
    Incomplete,
    /// The application has no active generation.
    NoActiveGeneration,
    /// No generation before the active one was ever activated.
    NoPreviousGeneration,
    /// The name cannot be that of an application.
    InvalidAppName,
}

/// The names of the entries that are directories, in the order of the entries.
pub open spec fn directory_names(entries: Seq<AppEntry>, n: nat) -> Seq<Seq<char>>
    decreases n,
{
    if n == 0 {
        Seq::empty()
    } else {
        let before = directory_names(entries, (n - 1) as nat);
        let entry = entries[n - 1];
        if entry.is_dir && entry.name is Some {
            before.push(entry.name->0@)
        } else {
            before
        }
    }
}

/// The number that a directory name denotes.
pub open spec fn number_of_name(name: Option<String>) -> Option<nat> {
    match name {
        Some(name) => parsed(name@, u64::MAX as nat),
        None => None,
    }
}

/// The greatest number among the first `n` names, or zero.
pub open spec fn greatest_number(names: Seq<Option<String>>, n: nat) -> nat
    decreases n,
{
    if n == 0 {
        0
    } else {
        let before = greatest_number(names, (n - 1) as nat);
        match number_of_name(names[n - 1]) {
            Some(number) => if number > before {
                number
            } else {
                before
            },
            None => before,
        }
    }
}

/// Whether generations are ordered by their numbers.
pub open spec fn is_ordered(generations: Seq<ResolvedGeneration>) -> bool {
    forall|i: int, j: int|
        0 <= i < j < generations.len() ==> (#[trigger] generations[i]).meta.number <= (
        #[trigger] generations[j]).meta.number
}

/// Whether a generation was activated before.
pub open spec fn was_activated(generation: ResolvedGeneration) -> bool {
    generation.meta.last_activated is Some
}

/// Whether a generation can be rolled back to from `current`.
pub open spec fn is_rollback_target(generation: ResolvedGeneration, current: u64) -> bool {
    generation.meta.number < current && was_activated(generation)
}

/// Whether a generation is the most recent one that a rollback can return to.
pub open spec fn is_latest_target(
    generations: Seq<ResolvedGeneration>,
    current: Option<u64>,
    i: int,
) -> bool {
    &&& current is Some
    &&& 0 <= i < generations.len()
    &&& is_rollback_target(generations[i], current->0)
    &&& forall|k: int|
        0 <= k < generations.len() && is_rollback_target(#[trigger] generations[k], current->0)
            ==> generations[k].meta.number <= generations[i].meta.number
}

/// The numbers of the generations that were never activated and are not current.
pub open spec fn never_activated(
    generations: Seq<ResolvedGeneration>,
    current: Option<u64>,
    n: nat,
) -> Seq<u64>
    decreases n,
{
    if n == 0 {
        Seq::empty()
    } else {
        let before = never_activated(generations, current, (n - 1) as nat);
        let generation = generations[n - 1];
        if !was_activated(generation) && Some(generation.meta.number) != current {
            before.push(generation.meta.number)
        } else {
            before
        }
    }
}

/// The numbers of the generations that were activated before and are not current.
pub open spec fn formerly_activated(
    generations: Seq<ResolvedGeneration>,
    current: Option<u64>,
    n: nat,
) -> Seq<u64>
    decreases n,
{
    if n == 0 {
        Seq::empty()
    } else {
        let before = formerly_activated(generations, current, (n - 1) as nat);
        let generation = generations[n - 1];
        if was_activated(generation) && Some(generation.meta.number) != current {
            before.push(generation.meta.number)
        } else {
            before
        }
    }
}

/// The generations that are collected: those that were never activated, and all
/// but the last `keep` of those that were. The current one is not among them.
pub open spec fn collected(
    generations: Seq<ResolvedGeneration>,
    current: Option<u64>,
    keep: nat,
) -> Seq<u64> {
    let former = formerly_activated(generations, current, generations.len());
    let never = never_activated(generations, current, generations.len());
    if former.len() > keep {
        never + former.take(former.len() - keep)
    } else {
        never
    }
}

proof fn lemma_current_not_selected(
    generations: Seq<ResolvedGeneration>,
    current: Option<u64>,
    n: nat,
)
    requires
        n <= generations.len(),
    ensures
        forall|i: int|
            0 <= i < never_activated(generations, current, n).len() ==> Some(
                #[trigger] never_activated(generations, current, n)[i],
            ) != current,
        forall|i: int|
            0 <= i < formerly_activated(generations, current, n).len() ==> Some(
                #[trigger] formerly_activated(generations, current, n)[i],
            ) != current,
    decreases n,
{
    if n > 0 {
        let m = (n - 1) as nat;
        lemma_current_not_selected(generations, current, m);
        let never = never_activated(generations, current, n);
        assert forall|i: int| 0 <= i < never.len() implies Some(#[trigger] never[i]) != current by {
            if i < never_activated(generations, current, m).len() {
                assert(never[i] == never_activated(generations, current, m)[i]);
            }
        }
        let former = formerly_activated(generations, current, n);
        assert forall|i: int| 0 <= i < former.len() implies Some(#[trigger] former[i])
            != current by {
            if i < formerly_activated(generations, current, m).len() {
                assert(former[i] == formerly_activated(generations, current, m)[i]);
            }
        }
    }
}

/// The currently active generation is never collected.
pub proof fn law_current_generation_is_kept(
    generations: Seq<ResolvedGeneration>,
    current: u64,
    keep: nat,
)
    ensures
        !collected(generations, Some(current), keep).contains(current),
{
    lemma_current_not_selected(generations, Some(current), generations.len());
    let all = collected(generations, Some(current), keep);
    let never = never_activated(generations, Some(current), generations.len());
    let former = formerly_activated(generations, Some(current), generations.len());
    assert forall|i: int| 0 <= i < all.len() implies all[i] != current by {
        if i < never.len() {
            assert(all[i] == never[i]);
        } else {
            assert(all[i] == former[i - never.len()]);
        }
    }
}

/// Of the generations that were activated before, collecting keeps the `keep`
/// most recent ones, or all of them where there are fewer.
pub proof fn law_recent_generations_are_kept(
    generations: Seq<ResolvedGeneration>,
    current: Option<u64>,
    keep: nat,
)
    ensures
        ({
            let former = formerly_activated(generations, current, generations.len());
            let never = never_activated(generations, current, generations.len());
            let all = collected(generations, current, keep);
            &&& all.len() >= never.len()
            &&& all.take(never.len() as int) == never
            &&& former == all.skip(never.len() as int) + former.skip(all.len() - never.len())
            &&& former.skip(all.len() - never.len()).len() == if former.len() > keep {
                keep
            } else {
                former.len()
            }
        }),
{
    let former = formerly_activated(generations, current, generations.len());
    let never = never_activated(generations, current, generations.len());
    let all = collected(generations, current, keep);
    if former.len() > keep {
        assert(all.skip(never.len() as int) =~= former.take(former.len() - keep));
    } else {
        assert(all.skip(never.len() as int) =~= Seq::empty());
    }
    assert(all.take(never.len() as int) =~= never);
    assert(former =~= all.skip(never.len() as int) + former.skip(all.len() - never.len()));
}

/// When the generations were activated last.
pub open spec fn activations(generations: Seq<ResolvedGeneration>) -> Seq<LastActivation> {
    Seq::new(
        generations.len(),
        |i: int| LastActivation::recorded(generations[i].meta.last_activated),
    )
}

/// Whether the generation at position `i` was activated last: no other one was activated at
/// a later instant, and among equal instants it is the last.
pub open spec fn is_last_activated(generations: Seq<ResolvedGeneration>, i: int) -> bool {
    is_latest(activations(generations), i)
}

/// The steps of an operation that only asks the orchestrator.
pub open spec fn orchestrate_steps(operation: Operation) -> Seq<RunStep> {
    seq![
        RunStep::LoadManifest,
        RunStep::SelectOrchestrator,
        RunStep::Orchestrate { operation },
    ]
}

/// The steps of an activation: the state says that the generation is active only
/// after the orchestrator activated it and the metadata says so.
pub open spec fn activate_steps(generation: u64) -> Seq<RunStep> {
    orchestrate_steps(Operation::Activate).push(RunStep::MarkActivated).push(
        RunStep::Write { record: Record::Active { generation } },
    )
}

impl AppContext {
    /// Whether the context is the one of a generation.
    pub open spec fn is_for(
        self,
        manager: AppManager,
        app: Seq<char>,
        generation: u64,
        recovery: bool,
    ) -> bool {
        &&& self.app_dir@ == manager.app_path(app)
        &&& self.generation_dir@ == manager.generation_path(app, generation as nat)
        &&& self.data_dir@ == path_join(manager.app_path(app), "data"@)
        &&& self.recovery == recovery
        &&& self.service_manager@ == manager.service_manager@
    }
}

/// Path to the marker of a complete generation.
pub open spec fn marker_path(gen_dir: Seq<char>) -> Seq<char> {
    path_join(gen_dir, ".rugix/complete"@)
}

impl AppManager {
    /// The directory of an app.
    pub open spec fn app_path(self, app: Seq<char>) -> Seq<char> {
        path_join(self.apps_dir@, app)
    }

    /// The directory of a generation.
    pub open spec fn generation_path(self, app: Seq<char>, number: nat) -> Seq<char> {
        path_join(path_join(self.app_path(app), "generations"@), decimal(number))
    }

    /// Create a new app manager.
    pub fn new(apps_dir: String, service_manager: String) -> (r: Self)
        ensures
            r.apps_dir@ == apps_dir@,
            r.service_manager@ == service_manager@,
    {
        AppManager { apps_dir, service_manager }
    }

    /// Path to the lock file of an app and to its directory. An invalid name has
    /// neither.
    pub fn lock_paths(&self, app: &str) -> (r: Result<(String, String), AppsError>)
        ensures
            r is Ok == is_app_name(app@),
            r matches Err(e) ==> e == AppsError::InvalidAppName,
            r matches Ok((dir, file)) ==> {
                &&& dir@ == path_join(self.app_path(app@), ".rugix"@)
                &&& file@ == path_join(dir@, "lock"@)
            },
    {
        if !is_valid_app_name(app) {
            return Err(AppsError::InvalidAppName);
        }
        let dir = join(self.app_dir(app).as_str(), ".rugix");
        let file = join(dir.as_str(), "lock");
        Ok((dir, file))
    }

    /// Path to the directory of an app.
    pub fn app_dir(&self, app: &str) -> (r: String)
        ensures
            r@ == self.app_path(app@),
    {
        join(self.apps_dir.as_str(), app)
    }

    /// Path to the generations directory of an app.
    pub fn generations_dir(&self, app: &str) -> (r: String)
        ensures
            r@ == path_join(self.app_path(app@), "generations"@),
    {
        join(self.app_dir(app).as_str(), "generations")
    }

    /// Path to a specific generation directory.
    pub fn generation_dir(&self, app: &str, number: u64) -> (r: String)
        ensures
            r@ == self.generation_path(app@, number as nat),
    {
        join(self.generations_dir(app).as_str(), to_decimal(number).as_str())
    }

    /// Path to the data directory of an app.
    pub fn data_dir(&self, app: &str) -> (r: String)
        ensures
            r@ == path_join(self.app_path(app@), "data"@),
    {
        join(self.app_dir(app).as_str(), "data")
    }

    /// Path to the state file of an app.
    pub fn state_path(&self, app: &str) -> (r: String)
        ensures
            r@ == path_join(self.app_path(app@), ".rugix/state.json"@),
    {
        join(self.app_dir(app).as_str(), ".rugix/state.json")
    }

    /// Path to the marker of a complete generation.
    pub fn complete_marker(gen_dir: &str) -> (r: String)
        ensures
            r@ == marker_path(gen_dir@),
    {
        join(gen_dir, ".rugix/complete")
    }

    /// Check whether a generation is complete (fully installed), given how to find
    /// out whether a path exists.
    pub fn is_complete(gen_dir: &str, probe: impl Fn(&str) -> bool) -> (r: bool)
        requires
            forall|path: &str|
                path@ == marker_path(gen_dir@) ==> call_requires(probe, (path,)),
        ensures
            exists|path: &str|
                path@ == marker_path(gen_dir@) && #[trigger] call_ensures(
                    probe,
                    (path,),
                    r,
                ),
    {
        let marker = Self::complete_marker(gen_dir);
        let path = marker.as_str();
        let r = probe(path);
        assert(call_ensures(probe, (path,), r));
        r
    }

    /// The apps of a directory, sorted.
    pub fn list_apps(entries: &Vec<AppEntry>) -> (r: Vec<String>)
        ensures
            is_sorted_texts(views(r@), directory_names(entries@, entries@.len())),
    {
        let mut names: Vec<String> = Vec::new();
        let mut i: usize = 0;
        while i < entries.len()
            invariant
                i <= entries@.len(),
                views(names@) == directory_names(entries@, i as nat),
            decreases entries@.len() - i,
        {
            if entries[i].is_dir {
                if let Some(name) = &entries[i].name {
                    let ghost before = views(names@);
                    names.push(name.clone());
                    assert(views(names@) =~= before.push(name@));
                }
            }
            i = i + 1;
        }
        sort_strings(&names)
    }

    /// Begins the recovery of all apps after a boot: the apps in their order, and how they
    /// are recovered one after the other.
    pub fn recover_all(entries: &Vec<AppEntry>) -> (r: (Vec<String>, RecoverAll, RecoverAllAction))
        ensures
            is_sorted_texts(views(r.0@), directory_names(entries@, entries@.len())),
            r.1.wf(),
            r.1.app == 0,
            r.1.count == r.0@.len(),
            (r.1.phase, r.2) == turn_to(0, r.0@.len()),
    {
        let apps = Self::list_apps(entries);
        let (recovery, action) = RecoverAll::begin(apps.len());
        (apps, recovery, action)
    }

    /// Begins the recovery of an app from its persisted state.
    pub fn recover_app(state: &AppState) -> (r: (Recovery, Action))
        ensures
            r == Recovery::of(*state),
            r.0.wf(),
    {
        Recovery::begin(state)
    }

    /// Determine the number of the next generation from the names in the directory
    /// of generations.
    pub fn next_generation_number(names: &Vec<Option<String>>) -> (r: u64)
        requires
            greatest_number(names@, names@.len()) < u64::MAX,
        ensures
            r == greatest_number(names@, names@.len()) + 1,
    {
        let mut max: u64 = 0;
        let mut i: usize = 0;
        while i < names.len()
            invariant
                i <= names@.len(),
                max == greatest_number(names@, i as nat),
            decreases names@.len() - i,
        {
            if let Some(name) = &names[i] {
                if let Some(number) = parse_u64(name.as_str()) {
                    if number > max {
                        max = number;
                    }
                }
            }
            i = i + 1;
        }
        max + 1
    }

    /// Allocate the next generation: its number and its directory, given the names in the
    /// directory of generations.
    pub fn create_generation(&self, app: &str, names: &Vec<Option<String>>) -> (r: Result<
        (u64, String),
        AppsError,
    >)
        requires
            greatest_number(names@, names@.len()) < u64::MAX,
        ensures
            r is Ok == is_app_name(app@),
            r matches Err(e) ==> e == AppsError::InvalidAppName,
            r matches Ok((number, dir)) ==> {
                &&& number == greatest_number(names@, names@.len()) + 1
                &&& dir@ == self.generation_path(app@, number as nat)
            },
    {
        if !is_valid_app_name(app) {
            return Err(AppsError::InvalidAppName);
        }
        let number: u64 = Self::next_generation_number(names);
        Ok((number, self.generation_dir(app, number)))
    }

    /// The persisted state of an app: inactive, where there is none.
    pub fn read_state(file: StateFile) -> (r: Result<AppState, StateFileError>)
        ensures
            match (file, r) {
                (StateFile::Missing, Ok(state)) => state is Inactive,
                (StateFile::Unreadable, Err(e)) => e == StateFileError::Unreadable,
                (StateFile::Unparsable, Err(e)) => e == StateFileError::Unparsable,
                (StateFile::Parsed(found), Ok(state)) => state == found,
                _ => false,
            },
    {
        match file {
            StateFile::Missing => Ok(AppState::Inactive),
            StateFile::Unreadable => Err(StateFileError::Unreadable),
            StateFile::Unparsable => Err(StateFileError::Unparsable),
            StateFile::Parsed(state) => Ok(state),
        }
    }

    /// The generations of an app, ordered by number. An entry whose name is no
    /// number is none; one without readable metadata gets fresh metadata.
    pub fn list_generations(entries: Vec<GenerationEntry>) -> (r: Vec<ResolvedGeneration>)
        ensures
            is_ordered(r@),
            is_generation_list(r@, entries@),
    {
        let mut found: Vec<ResolvedGeneration> = Vec::new();
        let mut rest = entries;
        let ghost all = entries@;
        assert(all.skip(0) =~= all);
        let mut taken: Ghost<nat> = Ghost(0);
        assert(contents(found@) =~= resolved_entries(all, 0));
        while rest.len() > 0
            invariant
                taken@ + rest@.len() == all.len(),
                rest@ == all.skip(taken@ as int),
                same_generations(found@, resolved_entries(all, taken@)),
            decreases rest@.len(),
        {
            let entry = rest.remove(0);
            assert(entry == all[taken@ as int]);
            assert(rest@ =~= all.skip(taken@ as int + 1));
            let ghost before = found@;
            match entry.name {
                Some(name) => match parse_u64(name.as_str()) {
                    Some(number) => {
                        let meta = match entry.meta {
                            Some(meta) => meta,
                            None => AppGeneration {
                                number,
                                created_at: String::new(),
                                last_activated: None,
                            },
                        };
                        let ghost kept = meta;
                        found.push(ResolvedGeneration { meta, complete: entry.complete });
                        assert(contents(found@) =~= contents(before).push(
                            (ResolvedGeneration { meta: kept, complete: entry.complete })@,
                        ));
                    },
                    None => {},
                },
                None => {},
            }
            proof {
                taken@ = taken@ + 1;
            }
        }
        assert(taken@ == all.len());
        sort_generations(found)
    }

    /// Get the currently active generation number, if any.
    pub fn current_generation(state: &AppState) -> (r: Option<u64>)
        ensures
            r == active_generation(*state),
    {
        match state {
            AppState::Active { generation } => Some(*generation),
            AppState::Starting { generation } => Some(*generation),
            AppState::Stopping { generation } => Some(*generation),
            _ => None,
        }
    }

    /// The directory of the active generation, where it is there.
    pub fn resolve_current(&self, app: &str, state: &AppState, present: bool) -> (r: Option<String>)
        ensures
            r is Some == (active_generation(*state) is Some && present),
            r is Some ==> r->0@ == self.generation_path(
                app@,
                active_generation(*state)->0 as nat,
            ),
    {
        match Self::current_generation(state) {
            Some(generation) => if present {
                Some(self.generation_dir(app, generation))
            } else {
                None
            },
            None => None,
        }
    }

    /// What an orchestrator is given for an operation on a generation.
    pub fn context(&self, app: &str, generation: u64, recovery: bool) -> (r: AppContext)
        ensures
            r.is_for(*self, app@, generation, recovery),
    {
        AppContext {
            app_dir: self.app_dir(app),
            generation_dir: self.generation_dir(app, generation),
            data_dir: self.data_dir(app),
            recovery,
            service_manager: self.service_manager.clone(),
        }
    }

    /// Get status of the currently active generation. `present` says whether its
    /// directory is there.
    pub fn app_status(&self, app: &str, state: &AppState, present: bool) -> (r: StatusQuery)
        ensures
            r is Stopped == (active_generation(*state) is None || !present),
            r matches StatusQuery::Ask { context } ==> context.is_for(
                *self,
                app@,
                active_generation(*state)->0,
                false,
            ),
    {
        match Self::current_generation(state) {
            Some(generation) => if present {
                StatusQuery::Ask { context: self.context(app, generation, false) }
            } else {
                StatusQuery::Stopped
            },
            None => StatusQuery::Stopped,
        }
    }

    /// The steps of activating a generation.
    pub fn run_activate(generation: u64) -> (r: Vec<RunStep>)
        ensures
            r@ == activate_steps(generation),
    {
        let steps = vec![
            RunStep::LoadManifest,
            RunStep::SelectOrchestrator,
            RunStep::Orchestrate { operation: Operation::Activate },
            RunStep::MarkActivated,
            RunStep::Write { record: Record::Active { generation } },
        ];
        assert(steps@ =~= activate_steps(generation));
        steps
    }

    /// The steps of deactivating a generation. One whose directory is gone needs
    /// none.
    pub fn run_deactivate(present: bool) -> (r: Vec<RunStep>)
        ensures
            r@ == if present {
                orchestrate_steps(Operation::Deactivate)
            } else {
                Seq::empty()
            },
    {
        if present {
            Self::orchestrated(Operation::Deactivate)
        } else {
            Vec::new()
        }
    }

    /// The steps of starting the workload of a generation.
    pub fn run_start() -> (r: Vec<RunStep>)
        ensures
            r@ == orchestrate_steps(Operation::Start),
    {
        Self::orchestrated(Operation::Start)
    }

    /// The steps of stopping the workload of a generation.
    pub fn run_stop() -> (r: Vec<RunStep>)
        ensures
            r@ == orchestrate_steps(Operation::Stop),
    {
        Self::orchestrated(Operation::Stop)
    }

    fn orchestrated(operation: Operation) -> (r: Vec<RunStep>)
        ensures
            r@ == orchestrate_steps(operation),
    {
        let steps = vec![
            RunStep::LoadManifest,
            RunStep::SelectOrchestrator,
            RunStep::Orchestrate { operation },
        ];
        assert(steps@ =~= orchestrate_steps(operation));
        steps
    }

    /// Begins the activation of a generation: a switch from the active one, if any.
    pub fn activate_generation(state: &AppState, generation: u64, complete: bool) -> (r: Result<
        (Switch, Action),
        AppsError,
    >)
        ensures
            r is Ok == complete,
            r matches Err(e) ==> e == AppsError::Incomplete,
            r matches Ok((switch, action)) ==> {
                let from = active_generation(*state);
                &&& switch == (Switch {
                    from,
                    to: Some(generation),
                    recovery: false,
                    phase: SwitchPhase::Announcing,
                })
                &&& switch.wf()
                &&& action == (Action::Write {
                    record: Record::Switching { from, to: Some(generation), recovery: false },
                })
            },
    {
        if !complete {
            return Err(AppsError::Incomplete);
        }
        Ok(Switch::begin(Self::current_generation(state), Some(generation), false))
    }

    /// Begins the deactivation of the active generation.
    pub fn deactivate(state: &AppState) -> (r: Result<(Switch, Action), AppsError>)
        ensures
            r is Ok == active_generation(*state) is Some,
            r matches Err(e) ==> e == AppsError::NoActiveGeneration,
            r matches Ok((switch, action)) ==> {
                let from = active_generation(*state);
                &&& switch == (Switch {
                    from,
                    to: None,
                    recovery: false,
                    phase: SwitchPhase::Announcing,
                })
                &&& switch.wf()
                &&& action == (Action::Write {
                    record: Record::Switching { from, to: None, recovery: false },
                })
            },
    {
        match Self::current_generation(state) {
            Some(current) => Ok(Switch::begin(Some(current), None, false)),
            None => Err(AppsError::NoActiveGeneration),
        }
    }

    /// Find the most recently activated generation (by its time).
    pub fn last_activated_generation(generations: &Vec<ResolvedGeneration>) -> (r: Option<u64>)
        ensures
            match r {
                Some(number) => exists|i: int| #[trigger]
                    is_last_activated(generations@, i) && generations@[i].meta.number == number,
                None => forall|i: int|
                    0 <= i < generations@.len() ==> !was_activated(#[trigger] generations@[i]),
            },
    {
        let mut times: Vec<LastActivation> = Vec::new();
        let mut i: usize = 0;
        while i < generations.len()
            invariant
                i <= generations@.len(),
                times@ == activations(generations@).take(i as int),
            decreases generations@.len() - i,
        {
            times.push(LastActivation::read(&generations[i].meta.last_activated));
            i = i + 1;
            assert(times@ =~= activations(generations@).take(i as int));
        }
        assert(times@ =~= activations(generations@));
        match latest_activation(&times) {
            Some(latest) => {
                assert(is_last_activated(generations@, latest as int));
                Some(generations[latest].meta.number)
            },
            None => {
                assert forall|k: int| 0 <= k < generations@.len() implies !was_activated(
                    #[trigger] generations@[k],
                ) by {
                    assert(times@[k] is Never);
                }
                None
            },
        }
    }

    /// Find the generation to roll back to: the most recent one before the active
    /// one that was activated before.
    pub fn rollback_target_generation(
        state: &AppState,
        generations: &Vec<ResolvedGeneration>,
    ) -> (r: Result<u64, AppsError>)
        requires
            is_ordered(generations@),
        ensures
            r matches Err(AppsError::NoActiveGeneration) <==> active_generation(*state) is None,
            r matches Err(AppsError::NoPreviousGeneration) <==> {
                &&& active_generation(*state) is Some
                &&& forall|i: int|
                    0 <= i < generations@.len() ==> !is_rollback_target(
                        #[trigger] generations@[i],
                        active_generation(*state)->0,
                    )
            },
            r matches Ok(number) ==> {
                let current = active_generation(*state)->0;
                &&& number < current
                &&& exists|i: int|
                    0 <= i < generations@.len() && is_rollback_target(
                        #[trigger] generations@[i],
                        current,
                    ) && generations@[i].meta.number == number
                &&& forall|i: int|
                    0 <= i < generations@.len() && is_rollback_target(
                        #[trigger] generations@[i],
                        current,
                    ) ==> generations@[i].meta.number <= number
            },
            r matches Err(e) ==> e == AppsError::NoActiveGeneration || e
                == AppsError::NoPreviousGeneration,
    {
        let current: u64 = match Self::current_generation(state) {
            Some(current) => current,
            None => return Err(AppsError::NoActiveGeneration),
        };
        let mut i: usize = generations.len();
        while i > 0
            invariant
                i <= generations@.len(),
                is_ordered(generations@),
                Some(current) == active_generation(*state),
                forall|k: int|
                    i <= k < generations@.len() ==> !is_rollback_target(
                        #[trigger] generations@[k],
                        current,
                    ),
            decreases i,
        {
            let generation = &generations[i - 1];
            if generation.meta.number < current && generation.meta.last_activated.is_some() {
                assert(is_rollback_target(generations@[i - 1], current));
                return Ok(generation.meta.number);
            }
            i = i - 1;
        }
        Err(AppsError::NoPreviousGeneration)
    }

    /// Rollback: begins a switch from the current generation to the most recent previous one
    /// that was successfully activated before, if it is complete.
    pub fn rollback<F: FnOnce(u64) -> bool>(
        state: &AppState,
        generations: &Vec<ResolvedGeneration>,
        is_complete: F,
    ) -> (r: Result<(Switch, Action), AppsError>)
        requires
            is_ordered(generations@),
            forall|number: u64| call_requires(is_complete, (number,)),
        ensures
            r matches Err(AppsError::NoActiveGeneration) <==> active_generation(*state) is None,
            r matches Err(AppsError::NoPreviousGeneration) <==> {
                &&& active_generation(*state) is Some
                &&& forall|i: int|
                    0 <= i < generations@.len() ==> !is_rollback_target(
                        #[trigger] generations@[i],
                        active_generation(*state)->0,
                    )
            },
            r matches Err(e) ==> e == AppsError::NoActiveGeneration || e
                == AppsError::NoPreviousGeneration || e == AppsError::Incomplete,
            r matches Err(AppsError::Incomplete) ==> exists|i: int|
                is_latest_target(generations@, active_generation(*state), i) && call_ensures(
                    is_complete,
                    ((#[trigger] generations@[i]).meta.number,),
                    false,
                ),
            r matches Ok((switch, action)) ==> {
                let from = active_generation(*state);
                &&& switch.wf()
                &&& switch.from == from
                &&& switch.phase == SwitchPhase::Announcing
                &&& !switch.recovery
                &&& exists|i: int|
                    is_latest_target(generations@, from, i) && call_ensures(
                        is_complete,
                        ((#[trigger] generations@[i]).meta.number,),
                        true,
                    ) && switch.to == Some(generations@[i].meta.number)
                &&& action == (Action::Write {
                    record: Record::Switching { from, to: switch.to, recovery: false },
                })
            },
    {
        let target: u64 = match Self::rollback_target_generation(state, generations) {
            Ok(target) => target,
            Err(e) => {
                return Err(e);
            },
        };
        let ghost at = choose|i: int|
            0 <= i < generations@.len() && is_rollback_target(
                #[trigger] generations@[i],
                active_generation(*state)->0,
            ) && generations@[i].meta.number == target;
        let complete = is_complete(target);
        assert(is_latest_target(generations@, active_generation(*state), at));
        assert(generations@[at].meta.number == target);
        Self::activate_generation(state, target, complete)
    }

    /// The steps that remove a generation. The marker goes first, so that an interrupted
    /// removal leaves the generation incomplete rather than appearing valid.
    pub fn remove_generation(marker_present: bool) -> (r: Vec<RemovalStep>)
        ensures
            r@ == if marker_present {
                seq![RemovalStep::RemoveMarker, RemovalStep::RemoveDirectory]
            } else {
                seq![RemovalStep::RemoveDirectory]
            },
            r@ == removal_steps(marker_present),
    {
        let mut steps: Vec<RemovalStep> = Vec::new();
        if marker_present {
            steps.push(RemovalStep::RemoveMarker);
        }
        steps.push(RemovalStep::RemoveDirectory);
        steps
    }

    /// The steps that remove an app entirely. One that is active is deactivated first.
    pub fn remove_app(state: &AppState, dir_present: bool) -> (r: Vec<RemovalStep>)
        ensures
            r@ == (if active_generation(*state) is Some {
                seq![RemovalStep::Deactivate]
            } else {
                Seq::empty()
            }) + (if dir_present {
                seq![RemovalStep::RemoveDirectory]
            } else {
                Seq::empty()
            }),
            r@ == app_removal_steps(*state, dir_present),
    {
        let mut steps: Vec<RemovalStep> = Vec::new();
        if Self::current_generation(state).is_some() {
            steps.push(RemovalStep::Deactivate);
        }
        if dir_present {
            steps.push(RemovalStep::RemoveDirectory);
        }
        steps
    }

    /// Garbage collect old generations: the numbers of those to remove, in order.
    ///
    /// Generations that were never activated are always removed (they are not valid
    /// rollback targets). Among previously-activated generations, at most `keep` of
    /// the most recent ones are retained. The currently active generation is never
    /// removed.
    pub fn gc(state: &AppState, generations: &Vec<ResolvedGeneration>, keep: usize) -> (r: Vec<u64>)
        requires
            is_ordered(generations@),
        ensures
            r@ == collected(generations@, active_generation(*state), keep as nat),
    {
        let current = Self::current_generation(state);
        let mut never: Vec<u64> = Vec::new();
        let mut former: Vec<u64> = Vec::new();
        let mut i: usize = 0;
        while i < generations.len()
            invariant
                i <= generations@.len(),
                never@ == never_activated(generations@, current, i as nat),
                former@ == formerly_activated(generations@, current, i as nat),
            decreases generations@.len() - i,
        {
            let meta = &generations[i].meta;
            let is_current = match current {
                Some(number) => number == meta.number,
                None => false,
            };
            if !is_current {
                if meta.last_activated.is_none() {
                    never.push(meta.number);
                } else {
                    former.push(meta.number);
                }
            }
            i = i + 1;
        }
        if former.len() > keep {
            let excess: usize = former.len() - keep;
            former.truncate(excess);
            never.append(&mut former);
        }
        never
    }
}

/// What an entry of the directory of generations stands for.
pub open spec fn resolved_entry(entry: GenerationEntry) -> Option<ResolvedGenerationView> {
    match number_of_name(entry.name) {
        Some(number) => Some(
            match entry.meta {
                Some(meta) => ResolvedGenerationView {
                    number: meta.number,
                    created_at: meta.created_at@,
                    last_activated: opt_view(meta.last_activated),
                    complete: entry.complete,
                },
                None => ResolvedGenerationView {
                    number: number as u64,
                    created_at: Seq::empty(),
                    last_activated: None,
                    complete: entry.complete,
                },
            },
        ),
        None => None,
    }
}

/// The content of a generation with its completeness.
pub struct ResolvedGenerationView {
    pub number: u64,
    pub created_at: Seq<char>,
    pub last_activated: Option<Seq<char>>,
    pub complete: bool,
}

impl View for ResolvedGeneration {
    type V = ResolvedGenerationView;

    open spec fn view(&self) -> ResolvedGenerationView {
        ResolvedGenerationView {
            number: self.meta.number,
            created_at: self.meta.created_at@,
            last_activated: opt_view(self.meta.last_activated),
            complete: self.complete,
        }
    }
}

/// The generations that the first `n` entries stand for.
pub open spec fn resolved_entries(entries: Seq<GenerationEntry>, n: nat) -> Seq<
    ResolvedGenerationView,
>
    decreases n,
{
    if n == 0 {
        Seq::empty()
    } else {
        let before = resolved_entries(entries, (n - 1) as nat);
        match resolved_entry(entries[n - 1]) {
            Some(generation) => before.push(generation),
            None => before,
        }
    }
}

/// The contents of generations.
pub open spec fn contents(generations: Seq<ResolvedGeneration>) -> Seq<ResolvedGenerationView> {
    generations.map_values(|g: ResolvedGeneration| g@)
}

/// Whether generations have the given contents.
pub open spec fn same_generations(
    generations: Seq<ResolvedGeneration>,
    expected: Seq<ResolvedGenerationView>,
) -> bool {
    contents(generations) == expected
}

/// The numbers of generations.
pub open spec fn numbers(generations: Seq<ResolvedGenerationView>) -> Seq<u64> {
    generations.map_values(|g: ResolvedGenerationView| g.number)
}

/// Whether `r` holds the generations that the entries stand for, in the stable
/// order of their numbers.
pub open spec fn is_generation_list(
    r: Seq<ResolvedGeneration>,
    entries: Seq<GenerationEntry>,
) -> bool {
    let found = resolved_entries(entries, entries.len());
    exists|order: Seq<usize>| #[trigger]
        is_number_order(order, numbers(found)) && same_generations(
            r,
            order.map_values(|i: usize| found[i as int]),
        )
}

fn copy_generation(generation: &ResolvedGeneration) -> (r: ResolvedGeneration)
    ensures
        r@ == generation@,
{
    ResolvedGeneration {
        meta: AppGeneration {
            number: generation.meta.number,
            created_at: generation.meta.created_at.clone(),
            last_activated: clone_opt(&generation.meta.last_activated),
        },
        complete: generation.complete,
    }
}

/// Orders generations by their numbers.
fn sort_generations(found: Vec<ResolvedGeneration>) -> (r: Vec<ResolvedGeneration>)
    ensures
        is_ordered(r@),
        ({
            let held = contents(found@);
            exists|order: Seq<usize>| #[trigger]
                is_number_order(order, numbers(held)) && same_generations(
                    r@,
                    order.map_values(|i: usize| held[i as int]),
                )
        }),
{
    let ghost held = contents(found@);
    let mut keys: Vec<u64> = Vec::new();
    let mut i: usize = 0;
    while i < found.len()
        invariant
            i <= found@.len(),
            held == contents(found@),
            keys@ == numbers(held).take(i as int),
        decreases found@.len() - i,
    {
        keys.push(found[i].meta.number);
        i = i + 1;
        assert(keys@ =~= numbers(held).take(i as int));
    }
    assert(keys@ =~= numbers(held));
    let order = number_order(&keys);
    let mut r: Vec<ResolvedGeneration> = Vec::new();
    let mut k: usize = 0;
    while k < order.len()
        invariant
            k <= order@.len(),
            r@.len() == k,
            held == contents(found@),
            is_number_order(order@, numbers(held)),
            forall|j: int| 0 <= j < k ==> (#[trigger] r@[j])@ == held[order@[j] as int],
        decreases order@.len() - k,
    {
        assert(order@[k as int] < found@.len());
        let generation = copy_generation(&found[order[k]]);
        r.push(generation);
        assert(held[order@[k as int] as int] == found@[order@[k as int] as int]@);
        k = k + 1;
    }
    assert(same_generations(r@, order@.map_values(|i: usize| held[i as int]))) by {
        assert(contents(r@) =~= order@.map_values(
            |i: usize| held[i as int],
        ));
    }
    assert forall|a: int, b: int| 0 <= a < b < r@.len() implies (#[trigger] r@[a]).meta.number <= (
    #[trigger] r@[b]).meta.number by {
        assert(r@[a]@.number == numbers(held)[order@[a] as int]);
        assert(r@[b]@.number == numbers(held)[order@[b] as int]);
    }
    r
}

/// The numbers of the generations that were removed, sorted. `outcomes` says of
/// each planned removal whether it succeeded.
pub open spec fn succeeded(plan: Seq<u64>, outcomes: Seq<bool>, n: nat) -> Seq<u64>
    decreases n,
{
    if n == 0 {
        Seq::empty()
    } else {
        let before = succeeded(plan, outcomes, (n - 1) as nat);
        if outcomes[n - 1] {
            before.push(plan[n - 1])
        } else {
            before
        }
    }
}

/// The removed generations, sorted, from the plan and the outcomes of its removals.
pub fn removed_generations(plan: &Vec<u64>, outcomes: &Vec<bool>) -> (r: Vec<u64>)
    requires
        plan@.len() == outcomes@.len(),
    ensures
        ({
            let done = succeeded(plan@, outcomes@, plan@.len());
            exists|order: Seq<usize>| #[trigger]
                is_number_order(order, done) && r@ == order.map_values(|i: usize| done[i as int])
        }),
{
    let mut done: Vec<u64> = Vec::new();
    let mut i: usize = 0;
    while i < plan.len()
        invariant
            i <= plan@.len(),
            plan@.len() == outcomes@.len(),
            done@ == succeeded(plan@, outcomes@, i as nat),
        decreases plan@.len() - i,
    {
        if outcomes[i] {
            done.push(plan[i]);
        }
        i = i + 1;
    }
    let order = number_order(&done);
    let mut r: Vec<u64> = Vec::new();
    let mut k: usize = 0;
    while k < order.len()
        invariant
            k <= order@.len(),
            is_number_order(order@, done@),
            r@ == order@.map_values(|i: usize| done@[i as int]).take(k as int),
        decreases order@.len() - k,
    {
        assert(order@[k as int] < done@.len());
        r.push(done[order[k]]);
        k = k + 1;
        assert(r@ =~= order@.map_values(|i: usize| done@[i as int]).take(k as int));
    }
    assert(order@.map_values(|i: usize| done@[i as int]).take(k as int) =~= order@.map_values(
        |i: usize| done@[i as int],
    ));
    r
}

/// The next generation gets a number greater than that of any present one, and a directory
/// whose name no present one has.
pub proof fn law_next_generation_is_new(names: Seq<Option<String>>, i: int)
    requires
        0 <= i < names.len(),
        greatest_number(names, names.len()) < u64::MAX,
    ensures
        ({
            let next = greatest_number(names, names.len()) + 1;
            &&& number_of_name(names[i]) is Some ==> number_of_name(names[i])->0 < next
            &&& names[i] is Some ==> names[i]->0@ != decimal(next)
        }),
{
    lemma_greatest(names, names.len(), i);
    law_decimal_is_parsed(greatest_number(names, names.len()) + 1, u64::MAX as nat);
}

/// Marking a generation complete makes that one complete and leaves the others as they were.
/// Generations are given by their application and number, `files` are the paths of the files
/// that are there before, and `r` is what a truthful probe says of the marker of the asked
/// generation afterwards.
pub proof fn law_marking_completes_one_generation<P: Fn(&str) -> bool>(
    manager: AppManager,
    marked: (Seq<char>, u64),
    asked: (Seq<char>, u64),
    files: Set<Seq<char>>,
    probe: P,
    path: &str,
    r: bool,
)
    requires
        is_app_name(marked.0),
        is_app_name(asked.0),
        tells(probe, files.insert(marker_path(manager.generation_path(marked.0, marked.1 as nat)))),
        path@ == marker_path(manager.generation_path(asked.0, asked.1 as nat)),
        call_ensures(probe, (path,), r),
    ensures
        asked == marked ==> r,
        asked != marked ==> r == files.contains(path@),
{
    if asked != marked {
        lemma_generations_differ(manager, marked, asked);
    }
}

/// A generation whose directory holds no file is not complete.
pub proof fn law_fresh_generation_is_incomplete<P: Fn(&str) -> bool>(
    gen_dir: Seq<char>,
    files: Set<Seq<char>>,
    probe: P,
    path: &str,
    r: bool,
)
    requires
        forall|file: Seq<char>| #[trigger] files.contains(file) ==> !gen_dir.is_prefix_of(file),
        tells(probe, files),
        path@ == marker_path(gen_dir),
        call_ensures(probe, (path,), r),
    ensures
        !r,
{
    reveal_strlit(".rugix/complete");
    assert(gen_dir.is_prefix_of(marker_path(gen_dir)));
}

proof fn lemma_no_slash(name: Seq<char>)
    requires
        is_app_name(name),
    ensures
        !name.contains('/'),
        name.len() > 0,
{
    assert(is_plain_segment(segments(name)[0]));
    lemma_one_piece(name, '/');
}

proof fn lemma_one_piece(s: Seq<char>, separator: char)
    requires
        pieces(s, separator).len() == 1,
    ensures
        pieces(s, separator) == seq![s],
        !s.contains(separator),
    decreases s.len(),
{
    if s.len() == 0 {
        assert(s =~= Seq::empty());
    } else {
        lemma_some_piece(s.drop_last(), separator);
        lemma_one_piece(s.drop_last(), separator);
        assert(s.drop_last().push(s.last()) =~= s);
        assert(pieces(s, separator) =~= seq![s]);
    }
}

proof fn lemma_some_piece(s: Seq<char>, separator: char)
    ensures
        pieces(s, separator).len() > 0,
    decreases s.len(),
{
    if s.len() > 0 {
        lemma_some_piece(s.drop_last(), separator);
    }
}

/// The markers of different generations are different files.
proof fn lemma_generations_differ(
    manager: AppManager,
    a: (Seq<char>, u64),
    b: (Seq<char>, u64),
)
    requires
        is_app_name(a.0),
        is_app_name(b.0),
        a != b,
    ensures
        marker_path(manager.generation_path(a.0, a.1 as nat)) != marker_path(
            manager.generation_path(b.0, b.1 as nat),
        ),
{
    lemma_marker_text(manager, a);
    lemma_marker_text(manager, b);
    lemma_no_slash(a.0);
    lemma_no_slash(b.0);
    law_decimal_is_parsed(a.1 as nat, u64::MAX as nat);
    law_decimal_is_parsed(b.1 as nat, u64::MAX as nat);
    assert("/generations/"@[0] == '/') by {
        reveal_strlit("/generations/");
    }
    assert("/generations/"@.len() > 0) by {
        reveal_strlit("/generations/");
    }
    if marker_path(manager.generation_path(a.0, a.1 as nat)) == marker_path(
        manager.generation_path(b.0, b.1 as nat),
    ) {
        lemma_parts_determined(
            app_base(manager),
            (a.0, decimal(a.1 as nat)),
            (b.0, decimal(b.1 as nat)),
            "/generations/"@,
            "/.rugix/complete"@,
        );
    }
}

/// A text that is put together from parts of which the first holds no slash, and the next
/// begins with one, is put together from these parts only.
proof fn lemma_parts_determined(
    base: Seq<char>,
    a: (Seq<char>, Seq<char>),
    b: (Seq<char>, Seq<char>),
    middle: Seq<char>,
    end: Seq<char>,
)
    requires
        !a.0.contains('/'),
        !b.0.contains('/'),
        middle.len() > 0,
        middle[0] == '/',
        base + a.0 + middle + a.1 + end == base + b.0 + middle + b.1 + end,
    ensures
        a == b,
{
    let left = a.0 + middle + a.1 + end;
    let right = b.0 + middle + b.1 + end;
    let all = base + a.0 + middle + a.1 + end;
    assert(left =~= all.skip(base.len() as int));
    assert(right =~= all.skip(base.len() as int)) by {
        assert(right =~= (base + b.0 + middle + b.1 + end).skip(base.len() as int));
    }
    assert(a.0 =~= left.take(a.0.len() as int));
    assert(b.0 =~= right.take(b.0.len() as int));
    assert(left[a.0.len() as int] == middle[0]);
    assert(right[b.0.len() as int] == middle[0]);
    lemma_same_start(a.0, b.0, left, right);
    let from = (a.0 + middle).len() as int;
    assert(a.1 =~= left.subrange(from, left.len() - end.len()));
    assert(b.1 =~= right.subrange(from, right.len() - end.len()));
}

/// A text without a slash that a slash follows is determined by what it starts.
proof fn lemma_same_start(a: Seq<char>, b: Seq<char>, left: Seq<char>, right: Seq<char>)
    requires
        !a.contains('/'),
        !b.contains('/'),
        a.len() < left.len(),
        b.len() < right.len(),
        a == left.take(a.len() as int),
        b == right.take(b.len() as int),
        left[a.len() as int] == '/',
        right[b.len() as int] == '/',
        left == right,
    ensures
        a == b,
{
    if a.len() < b.len() {
        assert(b[a.len() as int] == '/');
    }
    if b.len() < a.len() {
        assert(a[b.len() as int] == '/');
    }
}

/// What the directories of all apps begin with.
spec fn app_base(manager: AppManager) -> Seq<char> {
    if manager.apps_dir@.len() == 0 || manager.apps_dir@.last() == '/' {
        manager.apps_dir@
    } else {
        manager.apps_dir@.push('/')
    }
}

proof fn lemma_digits_only(n: nat)
    ensures
        decimal(n).len() > 0,
        forall|i: int| 0 <= i < decimal(n).len() ==> #[trigger] decimal(n)[i] != '/',
    decreases n,
{
    lemma_decimal_digits(n);
}

proof fn lemma_marker_text(manager: AppManager, generation: (Seq<char>, u64))
    requires
        is_app_name(generation.0),
    ensures
        marker_path(manager.generation_path(generation.0, generation.1 as nat)) == app_base(manager)
            + generation.0 + "/generations/"@ + decimal(generation.1 as nat) + "/.rugix/complete"@,
{
    let number = decimal(generation.1 as nat);
    reveal_strlit("generations");
    reveal_strlit("/generations/");
    reveal_strlit(".rugix/complete");
    reveal_strlit("/.rugix/complete");
    lemma_no_slash(generation.0);
    lemma_digits_only(generation.1 as nat);
    assert(generation.0[0] != '/') by {
        if generation.0[0] == '/' {
            assert(generation.0.contains('/'));
        }
    }
    assert(number[0] != '/');
    let app = manager.app_path(generation.0);
    assert(app =~= app_base(manager) + generation.0);
    assert(app.last() == generation.0.last());
    assert(app.last() != '/') by {
        if app.last() == '/' {
            assert(generation.0.contains('/'));
        }
    }
    let below = path_join(app, "generations"@);
    assert(below =~= app + seq!['/'] + "generations"@);
    assert(below.last() == 's');
    let directory = path_join(below, number);
    assert(directory =~= below + seq!['/'] + number);
    assert(directory.last() == number.last());
    assert(marker_path(directory) =~= app_base(manager) + generation.0 + "/generations/"@ + number
        + "/.rugix/complete"@);
}

proof fn lemma_greatest(names: Seq<Option<String>>, n: nat, i: int)
    requires
        0 <= i < n <= names.len(),
    ensures
        number_of_name(names[i]) is Some ==> number_of_name(names[i])->0 <= greatest_number(
            names,
            n,
        ),
    decreases n,
{
    if i < n - 1 {
        lemma_greatest(names, (n - 1) as nat, i);
    }
}

/// Whether a generation was activated before and is not current.
pub open spec fn is_former(
    generations: Seq<ResolvedGeneration>,
    current: Option<u64>,
    i: int,
) -> bool {
    &&& 0 <= i < generations.len()
    &&& generations[i].meta.last_activated is Some
    &&& current != Some(generations[i].meta.number)
}

/// The positions of the generations before `n` and after `i` that were activated before and
/// are not current.
pub open spec fn later_former(
    generations: Seq<ResolvedGeneration>,
    current: Option<u64>,
    i: int,
    n: int,
) -> Set<int> {
    vstd::set_lib::set_int_range(i + 1, n).filter(|k: int| is_former(generations, current, k))
}

proof fn lemma_later_former(
    generations: Seq<ResolvedGeneration>,
    current: Option<u64>,
    i: int,
    n: nat,
)
    requires
        0 <= i < n <= generations.len(),
    ensures
        later_former(generations, current, i, n as int).finite(),
        later_former(generations, current, i, n as int).len() == formerly_activated(
            generations,
            current,
            n,
        ).len() - formerly_activated(generations, current, (i + 1) as nat).len(),
    decreases n - i,
{
    vstd::set_lib::lemma_int_range(i + 1, n as int);
    let later = later_former(generations, current, i, n as int);
    if n == i + 1 {
        assert(later =~= Set::empty());
    } else {
        lemma_later_former(generations, current, i, (n - 1) as nat);
        let before = later_former(generations, current, i, n - 1);
        if is_former(generations, current, n - 1) {
            assert(later =~= before.insert(n - 1));
        } else {
            assert(later =~= before);
        }
    }
}

proof fn lemma_selected(
    generations: Seq<ResolvedGeneration>,
    current: Option<u64>,
    n: nat,
)
    requires
        n <= generations.len(),
    ensures
        forall|i: int|
            0 <= i < n && generations[i].meta.last_activated is None && current != Some(
                (#[trigger] generations[i]).meta.number,
            ) ==> never_activated(generations, current, n).contains(generations[i].meta.number),
        forall|x: u64| #[trigger]
            never_activated(generations, current, n).contains(x) ==> exists|i: int|
                0 <= i < n && (#[trigger] generations[i]).meta.number == x
                    && generations[i].meta.last_activated is None && current != Some(x),
    decreases n,
{
    if n > 0 {
        let m = (n - 1) as nat;
        lemma_selected(generations, current, m);
        let before = never_activated(generations, current, m);
        let never = never_activated(generations, current, n);
        let g = generations[n - 1];
        assert forall|x: u64| before.contains(x) implies #[trigger] never.contains(x) by {
            let k = choose|k: int| 0 <= k < before.len() && before[k] == x;
            assert(never[k] == x);
        }
        if never.len() > before.len() {
            assert(never[before.len() as int] == g.meta.number);
        }
        assert forall|x: u64| #[trigger] never.contains(x) implies exists|i: int|
            0 <= i < n && (#[trigger] generations[i]).meta.number == x
                && generations[i].meta.last_activated is None && current != Some(x) by {
            let k = choose|k: int| 0 <= k < never.len() && never[k] == x;
            if k < before.len() {
                assert(before[k] == x);
                assert(before.contains(x));
            } else {
                assert(generations[n - 1].meta.number == x);
            }
        }
    }
}

proof fn lemma_former_position(
    generations: Seq<ResolvedGeneration>,
    current: Option<u64>,
    i: int,
    n: nat,
)
    requires
        0 <= i < n <= generations.len(),
        is_former(generations, current, i),
    ensures
        ({
            let former = formerly_activated(generations, current, n);
            let at = formerly_activated(generations, current, i as nat).len() as int;
            &&& at < former.len()
            &&& former[at] == generations[i].meta.number
            &&& formerly_activated(generations, current, (i + 1) as nat).len() == at + 1
        }),
    decreases n - i,
{
    if n > i + 1 {
        lemma_former_position(generations, current, i, (n - 1) as nat);
    }
}

proof fn lemma_former_source(
    generations: Seq<ResolvedGeneration>,
    current: Option<u64>,
    n: nat,
    p: int,
)
    requires
        n <= generations.len(),
        0 <= p < formerly_activated(generations, current, n).len(),
    ensures
        exists|i: int|
            0 <= i < n && #[trigger] is_former(generations, current, i) && formerly_activated(
                generations,
                current,
                i as nat,
            ).len() == p && generations[i].meta.number == formerly_activated(
                generations,
                current,
                n,
            )[p],
    decreases n,
{
    if n > 0 {
        let m = (n - 1) as nat;
        let before = formerly_activated(generations, current, m);
        if p < before.len() {
            lemma_former_source(generations, current, m, p);
            let i = choose|i: int|
                0 <= i < m && #[trigger] is_former(generations, current, i) && formerly_activated(
                    generations,
                    current,
                    i as nat,
                ).len() == p && generations[i].meta.number == before[p];
            assert(is_former(generations, current, i));
        } else {
            assert(is_former(generations, current, n - 1));
        }
    }
}

/// Collecting removes every generation that was never activated, and each one that was where
/// at least `keep` later ones were too. The current one is not counted and never removed, and
/// nothing else is removed either, where no two generations have the same number.
pub proof fn law_collection_is_exact(
    generations: Seq<ResolvedGeneration>,
    current: Option<u64>,
    keep: nat,
    i: int,
)
    requires
        0 <= i < generations.len(),
        forall|a: int, b: int|
            0 <= a < b < generations.len() ==> (#[trigger] generations[a]).meta.number != (
            #[trigger] generations[b]).meta.number,
    ensures
        ({
            let generation = generations[i].meta;
            let later = later_former(generations, current, i, generations.len() as int);
            collected(generations, current, keep).contains(generation.number) <==> current != Some(
                generation.number,
            ) && (generation.last_activated is Some ==> later.len() >= keep)
        }),
        forall|x: u64| #[trigger]
            collected(generations, current, keep).contains(x) ==> exists|k: int|
                0 <= k < generations.len() && (#[trigger] generations[k]).meta.number == x,
{
    let n = generations.len();
    let never = never_activated(generations, current, n);
    let former = formerly_activated(generations, current, n);
    let all = collected(generations, current, keep);
    let number = generations[i].meta.number;
    lemma_selected(generations, current, n);
    lemma_later_former(generations, current, i, n);
    lemma_current_not_selected(generations, current, n);
    assert forall|x: u64| #[trigger] all.contains(x) implies never.contains(x) || exists|p: int|
        0 <= p < former.len() - keep && #[trigger] former[p] == x by {
        let k = choose|k: int| 0 <= k < all.len() && all[k] == x;
        if k < never.len() {
            assert(never[k] == x);
        } else {
            assert(former[k - never.len()] == x);
        }
    }
    assert forall|x: u64| never.contains(x) implies #[trigger] all.contains(x) by {
        let k = choose|k: int| 0 <= k < never.len() && never[k] == x;
        assert(all[k] == x);
    }
    assert forall|p: int| 0 <= p < former.len() - keep implies all.contains(
        #[trigger] former[p],
    ) by {
        assert(all[never.len() + p] == former[p]);
    }
    assert forall|x: u64| #[trigger] all.contains(x) implies exists|k: int|
        0 <= k < generations.len() && (#[trigger] generations[k]).meta.number == x by {
        if !never.contains(x) {
            let p = choose|p: int| 0 <= p < former.len() - keep && #[trigger] former[p] == x;
            lemma_former_source(generations, current, n, p);
        }
    }
    if is_former(generations, current, i) {
        lemma_former_position(generations, current, i, n);
        let at = formerly_activated(generations, current, i as nat).len() as int;
        if all.contains(number) {
            if never.contains(number) {
                let k = choose|k: int|
                    0 <= k < n && (#[trigger] generations[k]).meta.number == number
                        && generations[k].meta.last_activated is None;
                assert(k == i);
            } else {
                let p = choose|p: int|
                    0 <= p < former.len() - keep && #[trigger] former[p] == number;
                lemma_former_source(generations, current, n, p);
                let k = choose|k: int|
                    0 <= k < n && #[trigger] is_former(generations, current, k)
                        && formerly_activated(generations, current, k as nat).len() == p
                        && generations[k].meta.number == number;
                assert(generations[k].meta.number == generations[i].meta.number);
                assert(k == i);
            }
        } else if at < former.len() - keep {
            assert(former[at] == number);
        }
    } else if current == Some(number) {
        if all.contains(number) {
            if never.contains(number) {
                let k = choose|k: int| 0 <= k < never.len() && never[k] == number;
                assert(Some(never[k]) != current);
            } else {
                let p = choose|p: int| 0 <= p < former.len() - keep && #[trigger] former[p] == number;
                assert(Some(former[p]) != current);
            }
        }
    }
}

/// Whether an entry is a directory of the given name.
pub open spec fn is_directory_of(entry: AppEntry, name: Seq<char>) -> bool {
    entry.is_dir && opt_view(entry.name) == Some(name)
}

proof fn lemma_directories(entries: Seq<AppEntry>, name: Seq<char>, n: nat)
    requires
        n <= entries.len(),
    ensures
        directory_names(entries, n).contains(name) <==> exists|i: int|
            0 <= i < n && is_directory_of(#[trigger] entries[i], name),
    decreases n,
{
    if n > 0 {
        lemma_directories(entries, name, (n - 1) as nat);
        let before = directory_names(entries, (n - 1) as nat);
        let names = directory_names(entries, n);
        if before.contains(name) {
            let k = choose|k: int| 0 <= k < before.len() && before[k] == name;
            assert(names[k] == name);
        }
        if names.contains(name) {
            let k = choose|k: int| 0 <= k < names.len() && names[k] == name;
            if k < before.len() {
                assert(before[k] == name);
            } else {
                assert(is_directory_of(entries[n - 1], name));
            }
        }
        if is_directory_of(entries[n - 1], name) {
            assert(names[before.len() as int] == name);
        }
    }
}

/// The apps are the directories that have a name, and nothing else is an app.
pub proof fn law_apps_are_the_directories(entries: Seq<AppEntry>, name: Seq<char>)
    ensures
        directory_names(entries, entries.len()).contains(name) <==> exists|i: int|
            0 <= i < entries.len() && is_directory_of(#[trigger] entries[i], name),
{
    lemma_directories(entries, name, entries.len());
}

proof fn lemma_greatest_is_there(names: Seq<Option<String>>, n: nat)
    requires
        n <= names.len(),
    ensures
        greatest_number(names, n) == 0 || exists|i: int|
            0 <= i < n && number_of_name(#[trigger] names[i]) == Some(greatest_number(names, n)),
    decreases n,
{
    if n > 0 {
        lemma_greatest_is_there(names, (n - 1) as nat);
        if greatest_number(names, n) != greatest_number(names, (n - 1) as nat) {
            assert(number_of_name(names[n - 1]) == Some(greatest_number(names, n)));
        }
    }
}

/// The next generation directly follows the greatest present one, and it is the first one
/// where there is none.
pub proof fn law_next_generation_follows_the_greatest(names: Seq<Option<String>>)
    ensures
        ({
            let next = greatest_number(names, names.len()) + 1;
            next == 1 || exists|i: int|
                0 <= i < names.len() && number_of_name(#[trigger] names[i]) == Some(
                    (next - 1) as nat,
                )
        }),
{
    lemma_greatest_is_there(names, names.len());
}

/// Whether an entry stands for a generation: its name is a number, and what is known of the
/// generation is what is recorded of it, or else no more than that number.
pub open spec fn is_entry_of(entry: GenerationEntry, generation: ResolvedGenerationView) -> bool {
    &&& entry.name is Some
    &&& parsed(entry.name->0@, u64::MAX as nat) is Some
    &&& generation.complete == entry.complete
    &&& match entry.meta {
        Some(meta) => generation.number == meta.number && generation.created_at == meta.created_at@
            && generation.last_activated == opt_view(meta.last_activated),
        None => Some(generation.number as nat) == parsed(entry.name->0@, u64::MAX as nat)
            && generation.created_at == Seq::<char>::empty() && generation.last_activated is None,
    }
}

proof fn lemma_entries(
    entries: Seq<GenerationEntry>,
    generation: ResolvedGenerationView,
    n: nat,
)
    requires
        n <= entries.len(),
    ensures
        resolved_entries(entries, n).contains(generation) <==> exists|i: int|
            0 <= i < n && is_entry_of(#[trigger] entries[i], generation),
    decreases n,
{
    if n > 0 {
        lemma_entries(entries, generation, (n - 1) as nat);
        let before = resolved_entries(entries, (n - 1) as nat);
        let all = resolved_entries(entries, n);
        let entry = entries[n - 1];
        if entry.name is Some {
            lemma_parsed_bound(entry.name->0@);
        }
        if before.contains(generation) {
            let k = choose|k: int| 0 <= k < before.len() && before[k] == generation;
            assert(all[k] == generation);
        }
        if all.contains(generation) {
            let k = choose|k: int| 0 <= k < all.len() && all[k] == generation;
            if k < before.len() {
                assert(before[k] == generation);
            } else {
                assert(is_entry_of(entries[n - 1], generation));
            }
        }
        if is_entry_of(entry, generation) {
            assert(resolved_entry(entry) == Some(generation));
            assert(all[before.len() as int] == generation);
        }
    }
}

proof fn lemma_parsed_bound(s: Seq<char>)
    ensures
        parsed(s, u64::MAX as nat) matches Some(number) ==> number <= u64::MAX,
{
}

/// The generations are those that the entries with a number for a name stand for.
pub proof fn law_generations_are_the_numbered_entries(
    entries: Seq<GenerationEntry>,
    generation: ResolvedGenerationView,
)
    ensures
        resolved_entries(entries, entries.len()).contains(generation) <==> exists|i: int|
            0 <= i < entries.len() && is_entry_of(#[trigger] entries[i], generation),
{
    lemma_entries(entries, generation, entries.len());
}

proof fn lemma_succeeded(plan: Seq<u64>, outcomes: Seq<bool>, x: u64, n: nat)
    requires
        n <= plan.len(),
        plan.len() == outcomes.len(),
    ensures
        succeeded(plan, outcomes, n).contains(x) <==> exists|i: int|
            0 <= i < n && #[trigger] plan[i] == x && outcomes[i],
    decreases n,
{
    if n > 0 {
        lemma_succeeded(plan, outcomes, x, (n - 1) as nat);
        let before = succeeded(plan, outcomes, (n - 1) as nat);
        let all = succeeded(plan, outcomes, n);
        if before.contains(x) {
            let k = choose|k: int| 0 <= k < before.len() && before[k] == x;
            assert(all[k] == x);
        }
        if all.contains(x) {
            let k = choose|k: int| 0 <= k < all.len() && all[k] == x;
            if k < before.len() {
                assert(before[k] == x);
            } else {
                assert(plan[n - 1] == x);
            }
        }
        if plan[n - 1] == x && outcomes[n - 1] {
            assert(all[before.len() as int] == x);
        }
    }
}

/// A generation is reported as removed exactly where its removal was planned and succeeded.
pub proof fn law_removed_generations_are_reported(plan: Seq<u64>, outcomes: Seq<bool>, x: u64)
    requires
        plan.len() == outcomes.len(),
    ensures
        succeeded(plan, outcomes, plan.len()).contains(x) <==> exists|i: int|
            0 <= i < plan.len() && #[trigger] plan[i] == x && outcomes[i],
{
    lemma_succeeded(plan, outcomes, x, plan.len());
}

/// The orchestrator is asked for the operation, and only after it is selected by what the
/// manifest says.
pub proof fn law_orchestrator_is_selected_first(operation: Operation, k: int)
    requires
        0 <= k < orchestrate_steps(operation).len(),
    ensures
        ({
            let steps = orchestrate_steps(operation);
            &&& steps[k] is LoadManifest <==> k == 0
            &&& steps[k] is SelectOrchestrator ==> steps[k - 1] is LoadManifest
            &&& steps[k] matches RunStep::Orchestrate { operation: o } ==> o == operation
                && steps[k - 1] is SelectOrchestrator
            &&& !(steps[k] is MarkActivated) && !(steps[k] is Write)
            &&& steps.last() is Orchestrate
        }),
{
}

/// An activated generation is recorded as the active one, at last, and only after it is
/// activated and its metadata says so.
pub proof fn law_activation_is_recorded_last(generation: u64, k: int)
    requires
        0 <= k < activate_steps(generation).len(),
    ensures
        ({
            let steps = activate_steps(generation);
            &&& steps.last() == (RunStep::Write { record: Record::Active { generation } })
            &&& steps[k] is Write ==> k == steps.len() - 1 && steps[k - 1] is MarkActivated
            &&& steps[k] is MarkActivated ==> steps[k - 1] == (RunStep::Orchestrate {
                operation: Operation::Activate,
            })
            &&& steps[k] is Orchestrate ==> steps[k - 1] is SelectOrchestrator
            &&& steps[k] is SelectOrchestrator ==> steps[k - 1] is LoadManifest
            &&& steps[k] is LoadManifest <==> k == 0
        }),
{
}

/// The steps that remove a generation.
pub open spec fn removal_steps(marker_present: bool) -> Seq<RemovalStep> {
    if marker_present {
        seq![RemovalStep::RemoveMarker, RemovalStep::RemoveDirectory]
    } else {
        seq![RemovalStep::RemoveDirectory]
    }
}

/// A generation is no longer marked as complete when its directory is removed.
pub proof fn law_marker_goes_before_the_directory(marker_present: bool, k: int)
    requires
        0 <= k < removal_steps(marker_present).len(),
    ensures
        ({
            let steps = removal_steps(marker_present);
            &&& steps.last() is RemoveDirectory
            &&& steps[k] is RemoveDirectory ==> k == steps.len() - 1
            &&& marker_present <==> steps.contains(RemovalStep::RemoveMarker)
            &&& !steps.contains(RemovalStep::Deactivate)
        }),
{
    let steps = removal_steps(marker_present);
    assert(marker_present ==> steps[0] is RemoveMarker);
}

/// The steps that remove an app.
pub open spec fn app_removal_steps(state: AppState, dir_present: bool) -> Seq<RemovalStep> {
    (if active_generation(state) is Some {
        seq![RemovalStep::Deactivate]
    } else {
        Seq::empty()
    }) + (if dir_present {
        seq![RemovalStep::RemoveDirectory]
    } else {
        Seq::empty()
    })
}

/// An app that is active is deactivated before its directory is removed.
pub proof fn law_active_app_is_deactivated_before_removal(
    state: AppState,
    dir_present: bool,
    generation: u64,
)
    ensures
        ({
            let steps = app_removal_steps(state, dir_present);
            let active = state is Active || state is Starting || state is Stopping;
            &&& active <==> steps.contains(RemovalStep::Deactivate)
            &&& dir_present <==> steps.contains(RemovalStep::RemoveDirectory)
            &&& active ==> steps[0] is Deactivate
            &&& dir_present ==> steps.last() is RemoveDirectory
            &&& steps.len() <= 2
            &&& state == (AppState::Active { generation }) || state == (AppState::Starting {
                generation,
            }) || state == (AppState::Stopping { generation }) <==> active_generation(state)
                == Some(generation)
        }),
{
    let steps = app_removal_steps(state, dir_present);
    assert(active_generation(state) is Some ==> steps[0] is Deactivate);
    assert(dir_present ==> steps[steps.len() - 1] is RemoveDirectory);
}

/// A rollback goes back to a generation that ran before the current one was installed, and no
/// generation between the two was ever activated.
pub proof fn law_rollback_returns_to_the_latest(
    generations: Seq<ResolvedGeneration>,
    current: Option<u64>,
    i: int,
    k: int,
)
    requires
        is_latest_target(generations, current, i),
        0 <= k < generations.len(),
    ensures
        generations[i].meta.last_activated is Some,
        current is Some && generations[i].meta.number < current->0,
        generations[i].meta.number < generations[k].meta.number < current->0
            ==> generations[k].meta.last_activated is None,
{
    assert(is_rollback_target(generations[k], current->0) ==> generations[k].meta.number
        <= generations[i].meta.number);
}

/// There is a generation to go back to wherever one was activated that comes before the
/// current one.
pub proof fn law_rollback_finds_its_target(
    generations: Seq<ResolvedGeneration>,
    current: u64,
    k: int,
)
    requires
        0 <= k < generations.len(),
        generations[k].meta.number < current,
        generations[k].meta.last_activated is Some,
    ensures
        exists|i: int| is_latest_target(generations, Some(current), i),
    decreases current - generations[k].meta.number,
{
    if !is_latest_target(generations, Some(current), k) {
        let m = choose|m: int|
            0 <= m < generations.len() && is_rollback_target(#[trigger] generations[m], current)
                && generations[m].meta.number > generations[k].meta.number;
        law_rollback_finds_its_target(generations, current, m);
    }
}

} // verus!
