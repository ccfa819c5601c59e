//! Operations concerning installed applications.

use vstd::prelude::*;
use crate::apps::lifecycle::{active_generation, AppState};
use crate::apps::manager::{AppManager, ResolvedGeneration};
use crate::text::{clone_opt, opt_view};

verus! {

/// List installed applications.
#[derive(Debug, Clone, Copy, PartialEq, Eq, Structural)]
pub struct ListApps;

/// Query an installed application.
#[derive(Debug)]
pub struct QueryApp {
    pub name: String,
}

/// The status of an application.
#[derive(Debug, Clone, Copy, PartialEq, Eq, Structural)]
pub enum AppStatus {
    Running,
    Stopped,
    Failed,
    Unknown,
}

/// The status that is shown: one that cannot be determined is unknown.
pub open spec fn shown_status(status: Option<AppStatus>) -> AppStatus {
    match status {
        Some(status) => status,
        None => AppStatus::Unknown,
    }
}

/// Resolve an optional [`AppStatus`], defaulting to `Unknown`.
pub fn resolve_app_status(status: Option<AppStatus>) -> (r: AppStatus)
    ensures
        r == shown_status(status),
{
    match status {
        Some(status) => status,
        None => AppStatus::Unknown,
    }
}

/// What is known of an application.
#[derive(Debug)]
pub struct AppFacts {
    pub name: String,
    /// The status, where it could be determined.
    pub status: Option<AppStatus>,
    /// The persisted state, where it could be read.
    pub state: Option<AppState>,
}

/// An entry of the list of applications.
#[derive(Debug)]
pub struct AppListEntryOutput<M> {
    pub name: String,
    pub status: AppStatus,
    pub generation: Option<u64>,
    pub metadata: Option<M>,
}

/// The generation that is shown: a state that cannot be read has none.
pub open spec fn shown_generation(state: Option<AppState>) -> Option<u64> {
    match state {
        Some(state) => active_generation(state),
        None => None,
    }
}

/// Whether metadata is that of a generation.
pub open spec fn is_metadata_of<M, F: Fn(&str) -> Option<M>>(
    read_metadata: F,
    manager: AppManager,
    app: Seq<char>,
    generation: u64,
    metadata: Option<M>,
) -> bool {
    exists|dir: &str|
        dir@ == manager.generation_path(app, generation as nat) && #[trigger] call_ensures(
            read_metadata,
            (dir,),
            metadata,
        )
}

/// Whether an entry shows what is known of an application.
pub open spec fn shows_app<M, F: Fn(&str) -> Option<M>>(
    entry: AppListEntryOutput<M>,
    facts: AppFacts,
    manager: AppManager,
    read_metadata: F,
) -> bool {
    &&& entry.name@ == facts.name@
    &&& entry.status == shown_status(facts.status)
    &&& entry.generation == shown_generation(facts.state)
    &&& match entry.generation {
        Some(generation) => is_metadata_of(
            read_metadata,
            manager,
            facts.name@,
            generation,
            entry.metadata,
        ),
        None => entry.metadata is None,
    }
}

fn metadata_of<M, F: Fn(&str) -> Option<M>>(
    read_metadata: &F,
    manager: &AppManager,
    app: &str,
    generation: u64,
) -> (r: Option<M>)
    requires
        forall|dir: &str| call_requires(*read_metadata, (dir,)),
    ensures
        is_metadata_of(*read_metadata, *manager, app@, generation, r),
{
    let dir = manager.generation_dir(app, generation);
    let text = dir.as_str();
    let r = read_metadata(text);
    assert(text@ == manager.generation_path(app@, generation as nat));
    r
}

/// Lists the applications, in the order in which they are given. A problem with one of them
/// does not keep the others from being listed.
pub fn list_apps<M, F: Fn(&str) -> Option<M>>(
    manager: &AppManager,
    apps: &Vec<AppFacts>,
    read_metadata: F,
) -> (r: Vec<AppListEntryOutput<M>>)
    requires
        forall|dir: &str| call_requires(read_metadata, (dir,)),
    ensures
        r@.len() == apps@.len(),
        forall|i: int|
            0 <= i < r@.len() ==> shows_app(#[trigger] r@[i], apps@[i], *manager, read_metadata),
{
    let mut entries: Vec<AppListEntryOutput<M>> = Vec::new();
    let mut i: usize = 0;
    while i < apps.len()
        invariant
            i <= apps@.len(),
            entries@.len() == i,
            forall|dir: &str| call_requires(read_metadata, (dir,)),
            forall|k: int|
                0 <= k < i ==> shows_app(
                    #[trigger] entries@[k],
                    apps@[k],
                    *manager,
                    read_metadata,
                ),
        decreases apps@.len() - i,
    {
        let app = &apps[i];
        let generation = match &app.state {
            Some(state) => AppManager::current_generation(state),
            None => None,
        };
        let metadata = match generation {
            Some(generation) => metadata_of(
                &read_metadata,
                manager,
                app.name.as_str(),
                generation,
            ),
            None => None,
        };
        entries.push(
            AppListEntryOutput {
                name: app.name.as_str().to_owned(),
                status: resolve_app_status(app.status),
                generation,
                metadata,
            },
        );
        i = i + 1;
    }
    entries
}

/// What is shown of a generation.
#[derive(Debug)]
pub struct GenerationInfoOutput<M> {
    pub number: u64,
    pub created_at: String,
    pub complete: bool,
    pub active: bool,
    pub last_activated: Option<String>,
    pub metadata: Option<M>,
}

/// Whether an entry shows a generation, but for its metadata.
pub open spec fn shows_generation<M>(
    entry: GenerationInfoOutput<M>,
    generation: ResolvedGeneration,
    current: Option<u64>,
) -> bool {
    &&& entry.number == generation.meta.number
    &&& entry.created_at@ == generation.meta.created_at@
    &&& entry.complete == generation.complete
    &&& entry.active == (current == Some(generation.meta.number))
    &&& opt_view(entry.last_activated) == opt_view(generation.meta.last_activated)
}

fn generation_output<M>(
    generation: &ResolvedGeneration,
    current: Option<u64>,
    metadata: Option<M>,
) -> (r: GenerationInfoOutput<M>)
    ensures
        shows_generation(r, *generation, current),
        r.metadata == metadata,
{
    GenerationInfoOutput {
        number: generation.meta.number,
        created_at: generation.meta.created_at.as_str().to_owned(),
        complete: generation.complete,
        active: match current {
            Some(number) => number == generation.meta.number,
            None => false,
        },
        last_activated: clone_opt(&generation.meta.last_activated),
        metadata,
    }
}

/// Shows the generations of an application without their metadata.
pub fn list_generations<M>(generations: &Vec<ResolvedGeneration>, state: &AppState) -> (r: Vec<
    GenerationInfoOutput<M>,
>)
    ensures
        r@.len() == generations@.len(),
        forall|i: int|
            0 <= i < r@.len() ==> shows_generation(
                #[trigger] r@[i],
                generations@[i],
                active_generation(*state),
            ) && r@[i].metadata is None,
{
    let current = AppManager::current_generation(state);
    let mut entries: Vec<GenerationInfoOutput<M>> = Vec::new();
    let mut i: usize = 0;
    while i < generations.len()
        invariant
            i <= generations@.len(),
            entries@.len() == i,
            current == active_generation(*state),
            forall|k: int|
                0 <= k < i ==> shows_generation(#[trigger] entries@[k], generations@[k], current)
                    && entries@[k].metadata is None,
        decreases generations@.len() - i,
    {
        entries.push(generation_output(&generations[i], current, None));
        i = i + 1;
    }
    entries
}

/// What is shown of an application.
#[derive(Debug)]
pub struct AppInfoOutput<M> {
    pub name: String,
    pub status: AppStatus,
    pub state: AppState,
    pub generations: Vec<GenerationInfoOutput<M>>,
}

/// Shows an application with all of its generations, each with its metadata.
pub fn query_app<M, F: Fn(&str) -> Option<M>>(
    manager: &AppManager,
    query: QueryApp,
    status: Option<AppStatus>,
    generations: &Vec<ResolvedGeneration>,
    state: AppState,
    read_metadata: F,
) -> (r: AppInfoOutput<M>)
    requires
        forall|dir: &str| call_requires(read_metadata, (dir,)),
    ensures
        r.name@ == query.name@,
        r.status == shown_status(status),
        r.state == state,
        r.generations@.len() == generations@.len(),
        forall|i: int|
            0 <= i < generations@.len() ==> shows_generation(
                #[trigger] r.generations@[i],
                generations@[i],
                active_generation(state),
            ) && is_metadata_of(
                read_metadata,
                *manager,
                query.name@,
                generations@[i].meta.number,
                r.generations@[i].metadata,
            ),
{
    let current = AppManager::current_generation(&state);
    let mut entries: Vec<GenerationInfoOutput<M>> = Vec::new();
    let mut i: usize = 0;
    while i < generations.len()
        invariant
            i <= generations@.len(),
            entries@.len() == i,
            current == active_generation(state),
            forall|dir: &str| call_requires(read_metadata, (dir,)),
            forall|k: int|
                0 <= k < i ==> shows_generation(#[trigger] entries@[k], generations@[k], current)
                    && is_metadata_of(
                    read_metadata,
                    *manager,
                    query.name@,
                    generations@[k].meta.number,
                    entries@[k].metadata,
                ),
        decreases generations@.len() - i,
    {
        let metadata = metadata_of(
            &read_metadata,
            manager,
            query.name.as_str(),
            generations[i].meta.number,
        );
        entries.push(generation_output(&generations[i], current, metadata));
        i = i + 1;
    }
    AppInfoOutput {
        name: query.name,
        status: resolve_app_status(status),
        state,
        generations: entries,
    }
}

} // verus!
