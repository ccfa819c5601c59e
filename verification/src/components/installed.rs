//! Installed components, and the sets of components that changes would lead to.

use vstd::prelude::*;
use crate::components::bundle::{
    declarations_error, read_bundle_components, sorted_declarations, BundleComponentFile,
    BundleComponentsError,
};
use crate::components::{
    bundle_location, entry_location, synthetic_location, Capability, CapabilitySelector,
    CapabilityView, Component, ComponentLocation, ComponentSourceKind, ComponentView, LocationOf,
    LocationView,
};
use crate::text::{contains_str, same, views};
use crate::path::{join, path_join};

verus! {

/// A component and where it comes from.
#[derive(Debug)]
pub struct LoadedOf<L, C> {
    pub source: L,
    pub component: C,
}

/// A component and where it comes from.
pub type LoadedComponent = LoadedOf<ComponentLocation, Component>;

/// A loaded component, as the contracts speak of it.
pub type LoadedView = LoadedOf<LocationView, ComponentView>;

impl LoadedOf<ComponentLocation, Component> {
    /// The contents.
    pub open spec fn contents(self) -> LoadedView {
        LoadedOf { source: self.source@, component: self.component@ }
    }

    /// A copy.
    pub fn copy(&self) -> (r: Self)
        ensures
            r.contents() == self.contents(),
    {
        LoadedOf { source: self.source.copy(), component: self.component.copy() }
    }
}

/// The places of a list.
pub open spec fn location_views(list: Seq<ComponentLocation>) -> Seq<LocationView> {
    Seq::new(list.len(), |i: int| list[i]@)
}

/// The components of a list.
pub open spec fn loaded_views(list: Seq<LoadedComponent>) -> Seq<LoadedView> {
    Seq::new(list.len(), |i: int| list[i].contents())
}

fn push_location(list: &mut Vec<ComponentLocation>, location: ComponentLocation)
    ensures
        location_views(final(list)@) == location_views(old(list)@).push(location@),
{
    let ghost before = location_views(list@);
    list.push(location);
    assert(location_views(list@) =~= before.push(location@));
}

fn push_loaded(list: &mut Vec<LoadedComponent>, component: LoadedComponent)
    ensures
        loaded_views(final(list)@) == loaded_views(old(list)@).push(component.contents()),
{
    let ghost before = loaded_views(list@);
    list.push(component);
    assert(loaded_views(list@) =~= before.push(component.contents()));
}

/// Which components a change removes.
#[derive(Debug)]
pub enum Removal {
    /// Those of the system.
    System,
    /// Those of an app.
    App(String),
    /// Those of any of several apps.
    Apps(Vec<String>),
}

impl Removal {
    /// Whether what comes from a place is removed.
    pub open spec fn covers(self, location: LocationView) -> bool {
        match self {
            Removal::System => location.kind is System,
            Removal::App(app) => location.kind is App && location.app == Some(app@),
            Removal::Apps(apps) => location.kind is App && location.app is Some && views(
                apps@,
            ).contains(location.app->0),
        }
    }

    /// Whether what comes from a place is removed.
    pub fn removes(&self, location: &ComponentLocation) -> (r: bool)
        ensures
            r == self.covers(location@),
    {
        match self {
            Removal::System => location.kind == ComponentSourceKind::System,
            Removal::App(app) => location.kind == ComponentSourceKind::App && match &location.app {
                Some(found) => same(found.as_str(), app.as_str()),
                None => false,
            },
            Removal::Apps(apps) => location.kind == ComponentSourceKind::App
                && match &location.app {
                Some(found) => contains_str(apps, found.as_str()),
                None => false,
            },
        }
    }
}

/// The places among the first `n` that a removal leaves.
pub open spec fn kept_roots(roots: Seq<LocationView>, removal: Removal, n: nat) -> Seq<LocationView>
    decreases n,
{
    if n == 0 {
        Seq::empty()
    } else {
        let before = kept_roots(roots, removal, (n - 1) as nat);
        if removal.covers(roots[n - 1]) {
            before
        } else {
            before.push(roots[n - 1])
        }
    }
}

/// The components among the first `n` that a removal leaves.
pub open spec fn kept_components(components: Seq<LoadedView>, removal: Removal, n: nat) -> Seq<
    LoadedView,
>
    decreases n,
{
    if n == 0 {
        Seq::empty()
    } else {
        let before = kept_components(components, removal, (n - 1) as nat);
        if removal.covers(components[n - 1].source) {
            before
        } else {
            before.push(components[n - 1])
        }
    }
}

/// The components among the first `n` that have none of the IDs.
pub open spec fn other_components(
    components: Seq<LoadedView>,
    ids: Seq<Seq<char>>,
    n: nat,
) -> Seq<LoadedView>
    decreases n,
{
    if n == 0 {
        Seq::empty()
    } else {
        let before = other_components(components, ids, (n - 1) as nat);
        if ids.contains(components[n - 1].component.id) {
            before
        } else {
            before.push(components[n - 1])
        }
    }
}

/// The IDs of declared components.
pub open spec fn declared_ids(declared: Seq<(Seq<char>, ComponentView)>) -> Seq<Seq<char>> {
    Seq::new(declared.len(), |i: int| declared[i].1.id)
}

/// The components of a bundle with the place that they come from.
pub open spec fn bundled(declared: Seq<(Seq<char>, ComponentView)>) -> Seq<LoadedView> {
    Seq::new(
        declared.len(),
        |i: int|
            LoadedOf {
                source: entry_location(bundle_location(), declared[i].0),
                component: declared[i].1,
            },
    )
}

/// The components of files with the place that they come from.
pub open spec fn filed(
    root: LocationView,
    files: Seq<(Seq<char>, ComponentView)>,
) -> Seq<LoadedView> {
    Seq::new(
        files.len(),
        |i: int|
            LoadedOf { source: LocationOf { path: files[i].0, ..root }, component: files[i].1 },
    )
}

/// The paths and components of a list.
pub open spec fn pair_views(list: Seq<(String, Component)>) -> Seq<(Seq<char>, ComponentView)> {
    Seq::new(list.len(), |i: int| (list[i].0@, list[i].1@))
}

/// Roots and components, as the contracts speak of them.
pub type SetView = (Seq<LocationView>, Seq<LoadedView>);

/// A problem of a set of components. Components are given by their IDs.
#[derive(Debug)]
pub enum Problem {
    DuplicateComponent { id: String },
    DuplicateClaim { id: String, components: Vec<String> },
    UnsatisfiedRequirement { component: String, selector: CapabilitySelector },
    Conflict {
        component: String,
        selector: CapabilitySelector,
        provider: String,
        capability: Capability,
    },
}

/// What came of checking a set of components.
#[derive(Debug)]
pub struct CheckReport {
    pub consistent: bool,
    pub problems: Vec<Problem>,
}

/// A component that a problem is about, and where it comes from.
#[derive(Debug)]
pub struct ReferenceOf<S, L> {
    pub id: S,
    pub source: Option<L>,
}

/// A component that a problem is about.
pub type ComponentRef = ReferenceOf<String, ComponentLocation>;

/// A component that a problem is about, as the contracts speak of it.
pub type RefView = ReferenceOf<Seq<char>, LocationView>;

impl ReferenceOf<String, ComponentLocation> {
    /// The contents.
    pub open spec fn contents(self) -> RefView {
        ReferenceOf {
            id: self.id@,
            source: match self.source {
                Some(location) => Some(location@),
                None => None,
            },
        }
    }
}

/// References of a list.
pub open spec fn ref_views(list: Seq<ComponentRef>) -> Seq<RefView> {
    Seq::new(list.len(), |i: int| list[i].contents())
}

/// A problem with the places that the components come from.
#[derive(Debug)]
pub enum ProblemOf<S, Ls, R, Rs, C> {
    DuplicateComponent { id: S, sources: Ls },
    DuplicateClaim { id: S, components: Rs },
    UnsatisfiedRequirement { component: R, selector: C },
    Conflict { component: R, selector: C, provider: R, capability: C },
}

/// A problem with the places that the components come from.
pub type ProblemOutput = ProblemOf<
    String,
    Vec<ComponentLocation>,
    ComponentRef,
    Vec<ComponentRef>,
    Capability,
>;

/// A problem, as the contracts speak of it.
pub type ProblemView = ProblemOf<
    Seq<char>,
    Seq<LocationView>,
    RefView,
    Seq<RefView>,
    CapabilityView,
>;

impl ProblemOf<String, Vec<ComponentLocation>, ComponentRef, Vec<ComponentRef>, Capability> {
    /// The contents.
    pub open spec fn contents(self) -> ProblemView {
        match self {
            ProblemOf::DuplicateComponent { id, sources } => ProblemOf::DuplicateComponent {
                id: id@,
                sources: location_views(sources@),
            },
            ProblemOf::DuplicateClaim { id, components } => ProblemOf::DuplicateClaim {
                id: id@,
                components: ref_views(components@),
            },
            ProblemOf::UnsatisfiedRequirement { component, selector } => {
                ProblemOf::UnsatisfiedRequirement {
                    component: component.contents(),
                    selector: selector@,
                }
            },
            ProblemOf::Conflict { component, selector, provider, capability } => {
                ProblemOf::Conflict {
                    component: component.contents(),
                    selector: selector@,
                    provider: provider.contents(),
                    capability: capability@,
                }
            },
        }
    }
}

/// Problems of a list.
pub open spec fn problem_views(list: Seq<ProblemOutput>) -> Seq<ProblemView> {
    Seq::new(list.len(), |i: int| list[i].contents())
}

/// The places of the components from `from` on that have an ID.
pub open spec fn sources_of(components: Seq<LoadedView>, id: Seq<char>, n: nat) -> Seq<LocationView>
    decreases n,
{
    if n == 0 {
        Seq::empty()
    } else {
        let before = sources_of(components, id, (n - 1) as nat);
        if components[n - 1].component.id == id {
            before.push(components[n - 1].source)
        } else {
            before
        }
    }
}

/// The place of the first component from `from` on that has an ID.
pub open spec fn first_source(components: Seq<LoadedView>, id: Seq<char>, from: nat) -> Option<
    LocationView,
>
    decreases components.len() - from,
{
    if from >= components.len() {
        None
    } else if components[from as int].component.id == id {
        Some(components[from as int].source)
    } else {
        first_source(components, id, from + 1)
    }
}

/// The reference to a component.
pub open spec fn reference(components: Seq<LoadedView>, id: Seq<char>) -> RefView {
    ReferenceOf { id, source: first_source(components, id, 0) }
}

/// A problem with the places that the components come from.
pub open spec fn located_problem(components: Seq<LoadedView>, problem: Problem) -> ProblemView {
    match problem {
        Problem::DuplicateComponent { id } => ProblemOf::DuplicateComponent {
            id: id@,
            sources: sources_of(components, id@, components.len()),
        },
        Problem::DuplicateClaim { id, components: ids } => ProblemOf::DuplicateClaim {
            id: id@,
            components: Seq::new(ids@.len(), |i: int| reference(components, ids@[i]@)),
        },
        Problem::UnsatisfiedRequirement { component, selector } => {
            ProblemOf::UnsatisfiedRequirement {
                component: reference(components, component@),
                selector: selector@,
            }
        },
        Problem::Conflict { component, selector, provider, capability } => ProblemOf::Conflict {
            component: reference(components, component@),
            selector: selector@,
            provider: reference(components, provider@),
            capability: capability@,
        },
    }
}

/// An inventory of components.
#[derive(Debug)]
pub struct ComponentsOutput {
    pub roots: Vec<ComponentLocation>,
    pub components: Vec<LoadedComponent>,
}

impl ComponentsOutput {
    /// The contents.
    pub open spec fn contents(self) -> SetView {
        (location_views(self.roots@), loaded_views(self.components@))
    }
}

/// An inventory of components with its problems.
#[derive(Debug)]
pub struct ComponentsCheckOutput {
    pub roots: Vec<ComponentLocation>,
    pub components: Vec<LoadedComponent>,
    pub consistent: bool,
    pub problems: Vec<ProblemOutput>,
}

impl ComponentsCheckOutput {
    /// Whether this is the report on a set of components.
    pub open spec fn reports(self, set: SetView, report: CheckReport) -> bool {
        &&& location_views(self.roots@) == set.0
        &&& loaded_views(self.components@) == set.1
        &&& self.consistent == report.consistent
        &&& problem_views(self.problems@) == Seq::new(
            report.problems@.len(),
            |i: int| located_problem(set.1, report.problems@[i]),
        )
    }
}

/// A component root with its files.
#[derive(Debug)]
pub struct RootFiles {
    pub location: ComponentLocation,
    /// The paths of the files and the components that they declare.
    pub files: Vec<(String, Component)>,
}

/// The components of the first `n` roots.
pub open spec fn loaded_roots(roots: Seq<RootFiles>, n: nat) -> SetView
    decreases n,
{
    if n == 0 {
        (Seq::empty(), Seq::empty())
    } else {
        let before = loaded_roots(roots, (n - 1) as nat);
        let root = roots[n - 1];
        (
            before.0.push(root.location@),
            before.1 + filed(root.location@, pair_views(root.files@)),
        )
    }
}

fn copy_pairs(files: &Vec<(String, Component)>) -> (r: Vec<(String, Component)>)
    ensures
        pair_views(r@) == pair_views(files@),
{
    let mut r: Vec<(String, Component)> = Vec::new();
    let mut i: usize = 0;
    while i < files.len()
        invariant
            i <= files@.len(),
            r@.len() == i,
            forall|j: int|
                0 <= j < i ==> ((#[trigger] r@[j]).0@, r@[j].1@) == (files@[j].0@, files@[j].1@),
        decreases files@.len() - i,
    {
        r.push((files[i].0.clone(), files[i].1.copy()));
        i = i + 1;
    }
    assert(pair_views(r@) =~= pair_views(files@));
    r
}

/// The component roots of the system itself, in the order in which they are loaded.
pub fn standard_roots() -> (r: Vec<ComponentLocation>)
    ensures
        location_views(r@) == seq![
            LocationOf {
                kind: ComponentSourceKind::System,
                path: "/usr/lib/rugix/components"@,
                app: None,
                generation: None,
            },
            LocationOf {
                kind: ComponentSourceKind::Local,
                path: "/etc/rugix/components"@,
                app: None,
                generation: None,
            },
            LocationOf {
                kind: ComponentSourceKind::Runtime,
                path: "/run/rugix/components"@,
                app: None,
                generation: None,
            },
        ],
{
    let mut r: Vec<ComponentLocation> = Vec::new();
    assert(location_views(r@) =~= Seq::<LocationView>::empty());
    push_location(
        &mut r,
        ComponentLocation::new(ComponentSourceKind::System, "/usr/lib/rugix/components"),
    );
    push_location(
        &mut r,
        ComponentLocation::new(ComponentSourceKind::Local, "/etc/rugix/components"),
    );
    push_location(
        &mut r,
        ComponentLocation::new(ComponentSourceKind::Runtime, "/run/rugix/components"),
    );
    assert(location_views(r@) =~= seq![
        LocationOf {
            kind: ComponentSourceKind::System,
            path: "/usr/lib/rugix/components"@,
            app: None,
            generation: None,
        },
        LocationOf {
            kind: ComponentSourceKind::Local,
            path: "/etc/rugix/components"@,
            app: None,
            generation: None,
        },
        LocationOf {
            kind: ComponentSourceKind::Runtime,
            path: "/run/rugix/components"@,
            app: None,
            generation: None,
        },
    ]);
    r
}

/// The component root of the active generation of an app; there is none without one.
pub fn active_app_root(app: &str, generation: Option<u64>, generation_dir: &str) -> (r: Option<
    ComponentLocation,
>)
    ensures
        match (r, generation) {
            (Some(location), Some(generation)) => location@ == (LocationOf {
                kind: ComponentSourceKind::App,
                path: path_join(generation_dir@, ".rugix/components"@),
                app: Some(app@),
                generation: Some(generation),
            }),
            (None, None) => true,
            _ => false,
        },
{
    match generation {
        Some(generation) => {
            let root = join(generation_dir, ".rugix/components");
            Some(ComponentLocation::app(app, generation, root.as_str()))
        },
        None => None,
    }
}

/// Installed components loaded from all active component roots.
#[derive(Debug)]
pub struct InstalledComponents {
    pub roots: Vec<ComponentLocation>,
    pub components: Vec<LoadedComponent>,
}

impl InstalledComponents {
    /// The contents.
    pub open spec fn contents(self) -> SetView {
        (location_views(self.roots@), loaded_views(self.components@))
    }

    /// No components.
    pub fn new() -> (r: Self)
        ensures
            r.contents() == (Seq::<LocationView>::empty(), Seq::<LoadedView>::empty()),
    {
        let r = InstalledComponents { roots: Vec::new(), components: Vec::new() };
        assert(location_views(r.roots@) =~= Seq::<LocationView>::empty());
        assert(loaded_views(r.components@) =~= Seq::<LoadedView>::empty());
        r
    }

    /// Adds the components of files of a root, in the given order.
    pub fn load_root(&mut self, root: ComponentLocation, files: Vec<(String, Component)>)
        ensures
            final(self).contents() == (
                old(self).contents().0.push(root@),
                old(self).contents().1 + filed(root@, pair_views(files@)),
            ),
    {
        let ghost start = loaded_views(self.components@);
        let ghost added = filed(root@, pair_views(files@));
        let mut i: usize = 0;
        assert(start + added.take(0) =~= start);
        while i < files.len()
            invariant
                i <= files@.len(),
                added == filed(root@, pair_views(files@)),
                self.roots == old(self).roots,
                loaded_views(self.components@) == start + added.take(i as int),
            decreases files@.len() - i,
        {
            let source = root.file_location(files[i].0.as_str());
            let loaded = LoadedOf { source, component: files[i].1.copy() };
            assert(loaded.contents() == added[i as int]);
            push_loaded(&mut self.components, loaded);
            i = i + 1;
            assert(start + added.take(i as int) =~= (start + added.take(i - 1)).push(
                added[i - 1],
            ));
        }
        assert(added.take(i as int) =~= added);
        push_location(&mut self.roots, root);
    }

    /// Load installed components: those of the given roots in their order, and the one that
    /// stands for the host.
    pub fn load(roots: Vec<RootFiles>, host: Component) -> (r: InstalledComponents)
        ensures
            ({
                let loaded = loaded_roots(roots@, roots@.len());
                r.contents() == (
                    loaded.0.push(synthetic_location()),
                    loaded.1.push(
                        LoadedOf {
                            source: entry_location(synthetic_location(), "rugix.host"@),
                            component: host@,
                        },
                    ),
                )
            }),
    {
        let mut r = Self::new();
        let mut i: usize = 0;
        while i < roots.len()
            invariant
                i <= roots@.len(),
                r.contents() == loaded_roots(roots@, i as nat),
            decreases roots@.len() - i,
        {
            let root = &roots[i];
            let files = copy_pairs(&root.files);
            r.load_root(root.location.copy(), files);
            i = i + 1;
        }
        r.load_synthetic_components(host);
        r
    }

    /// Adds the component that stands for the host.
    pub fn load_synthetic_components(&mut self, host: Component)
        ensures
            final(self).contents() == (
                old(self).contents().0.push(synthetic_location()),
                old(self).contents().1.push(
                    LoadedOf {
                        source: entry_location(synthetic_location(), "rugix.host"@),
                        component: host@,
                    },
                ),
            ),
    {
        let root = ComponentLocation::synthetic_root();
        let source = root.synthetic_component_location("rugix.host");
        push_loaded(&mut self.components, LoadedOf { source, component: host });
        push_location(&mut self.roots, root);
    }

    fn copy_roots(&self) -> (r: Vec<ComponentLocation>)
        ensures
            location_views(r@) == location_views(self.roots@),
    {
        let mut r: Vec<ComponentLocation> = Vec::new();
        let mut i: usize = 0;
        while i < self.roots.len()
            invariant
                i <= self.roots@.len(),
                r@.len() == i,
                forall|j: int| 0 <= j < i ==> (#[trigger] r@[j])@ == self.roots@[j]@,
            decreases self.roots@.len() - i,
        {
            r.push(self.roots[i].copy());
            i = i + 1;
        }
        assert(location_views(r@) =~= location_views(self.roots@));
        r
    }

    fn copy_components(&self) -> (r: Vec<LoadedComponent>)
        ensures
            loaded_views(r@) == loaded_views(self.components@),
    {
        let mut r: Vec<LoadedComponent> = Vec::new();
        let mut i: usize = 0;
        while i < self.components.len()
            invariant
                i <= self.components@.len(),
                r@.len() == i,
                forall|j: int|
                    0 <= j < i ==> (#[trigger] r@[j]).contents() == self.components@[j].contents(),
            decreases self.components@.len() - i,
        {
            r.push(self.components[i].copy());
            i = i + 1;
        }
        assert(loaded_views(r@) =~= loaded_views(self.components@));
        r
    }

    /// Build inventory output for all loaded components.
    pub fn output(&self) -> (r: ComponentsOutput)
        ensures
            r.contents() == self.contents(),
    {
        ComponentsOutput { roots: self.copy_roots(), components: self.copy_components() }
    }

    /// Build inventory output for components with the given component ID. There is none
    /// where no component has it.
    pub fn output_for_component(&self, component_id: &str) -> (r: Option<ComponentsOutput>)
        ensures
            ({
                let found = with_id(
                    self.contents().1,
                    component_id@,
                    self.contents().1.len(),
                );
                match r {
                    Some(output) => found.len() > 0 && output.contents() == (
                        self.contents().0,
                        found,
                    ),
                    None => found.len() == 0,
                }
            }),
    {
        let ghost all = loaded_views(self.components@);
        let mut found: Vec<LoadedComponent> = Vec::new();
        let mut i: usize = 0;
        assert(loaded_views(found@) =~= Seq::<LoadedView>::empty());
        while i < self.components.len()
            invariant
                i <= self.components@.len(),
                all == loaded_views(self.components@),
                loaded_views(found@) == with_id(all, component_id@, i as nat),
            decreases self.components@.len() - i,
        {
            assert(all[i as int] == self.components@[i as int].contents());
            if same(self.components[i].component.id.as_str(), component_id) {
                push_loaded(&mut found, self.components[i].copy());
            }
            i = i + 1;
        }
        assert(loaded_views(found@).len() == found@.len());
        if found.len() == 0 {
            return None;
        }
        Some(ComponentsOutput { roots: self.copy_roots(), components: found })
    }

    fn sources_for_component(&self, id: &str) -> (r: Vec<ComponentLocation>)
        ensures
            location_views(r@) == sources_of(self.contents().1, id@, self.contents().1.len()),
    {
        let ghost all = loaded_views(self.components@);
        let mut r: Vec<ComponentLocation> = Vec::new();
        let mut i: usize = 0;
        assert(location_views(r@) =~= Seq::<LocationView>::empty());
        while i < self.components.len()
            invariant
                i <= self.components@.len(),
                all == loaded_views(self.components@),
                location_views(r@) == sources_of(all, id@, i as nat),
            decreases self.components@.len() - i,
        {
            assert(all[i as int] == self.components@[i as int].contents());
            if same(self.components[i].component.id.as_str(), id) {
                push_location(&mut r, self.components[i].source.copy());
            }
            i = i + 1;
        }
        r
    }

    fn component_ref(&self, id: &str) -> (r: ComponentRef)
        ensures
            r.contents() == reference(self.contents().1, id@),
    {
        let ghost all = loaded_views(self.components@);
        let mut i: usize = 0;
        while i < self.components.len()
            invariant
                i <= self.components@.len(),
                all == loaded_views(self.components@),
                first_source(all, id@, 0) == first_source(all, id@, i as nat),
            decreases self.components@.len() - i,
        {
            assert(all[i as int] == self.components@[i as int].contents());
            if same(self.components[i].component.id.as_str(), id) {
                return ReferenceOf {
                    id: id.to_owned(),
                    source: Some(self.components[i].source.copy()),
                };
            }
            i = i + 1;
        }
        ReferenceOf { id: id.to_owned(), source: None }
    }

    /// Adds the places that the components of a problem come from.
    pub fn problem_output(&self, problem: &Problem) -> (r: ProblemOutput)
        ensures
            r.contents() == located_problem(self.contents().1, *problem),
    {
        match problem {
            Problem::DuplicateComponent { id } => ProblemOf::DuplicateComponent {
                id: id.clone(),
                sources: self.sources_for_component(id.as_str()),
            },
            Problem::DuplicateClaim { id, components } => {
                let ghost all = self.contents().1;
                let mut refs: Vec<ComponentRef> = Vec::new();
                let mut i: usize = 0;
                while i < components.len()
                    invariant
                        i <= components@.len(),
                        all == self.contents().1,
                        refs@.len() == i,
                        forall|j: int|
                            0 <= j < i ==> (#[trigger] refs@[j]).contents() == reference(
                                all,
                                components@[j]@,
                            ),
                    decreases components@.len() - i,
                {
                    refs.push(self.component_ref(components[i].as_str()));
                    i = i + 1;
                }
                assert(ref_views(refs@) =~= Seq::new(
                    components@.len(),
                    |i: int| reference(all, components@[i]@),
                ));
                ProblemOf::DuplicateClaim { id: id.clone(), components: refs }
            },
            Problem::UnsatisfiedRequirement { component, selector } => {
                ProblemOf::UnsatisfiedRequirement {
                    component: self.component_ref(component.as_str()),
                    selector: selector.copy(),
                }
            },
            Problem::Conflict { component, selector, provider, capability } => {
                ProblemOf::Conflict {
                    component: self.component_ref(component.as_str()),
                    selector: selector.copy(),
                    provider: self.component_ref(provider.as_str()),
                    capability: capability.copy(),
                }
            },
        }
    }

    /// Check the loaded component set for internal consistency. `check` decides which
    /// problems there are; the output adds where the components come from.
    pub fn check_output(&self, check: impl FnOnce(&InstalledComponents) -> CheckReport) -> (r:
        ComponentsCheckOutput)
        requires
            call_requires(check, (self,)),
        ensures
            exists|report: CheckReport|
                #[trigger] call_ensures(check, (self,), report) && r.reports(
                    self.contents(),
                    report,
                ),
    {
        let report = check(self);
        self.report_output(&report)
    }

    /// The output for a report on this set.
    pub fn report_output(&self, report: &CheckReport) -> (r: ComponentsCheckOutput)
        ensures
            r.reports(self.contents(), *report),
    {
        let ghost all = self.contents().1;
        let mut problems: Vec<ProblemOutput> = Vec::new();
        let mut i: usize = 0;
        while i < report.problems.len()
            invariant
                i <= report.problems@.len(),
                all == self.contents().1,
                problems@.len() == i,
                forall|j: int|
                    0 <= j < i ==> (#[trigger] problems@[j]).contents() == located_problem(
                        all,
                        report.problems@[j],
                    ),
            decreases report.problems@.len() - i,
        {
            problems.push(self.problem_output(&report.problems[i]));
            i = i + 1;
        }
        assert(problem_views(problems@) =~= Seq::new(
            report.problems@.len(),
            |i: int| located_problem(all, report.problems@[i]),
        ));
        ComponentsCheckOutput {
            roots: self.copy_roots(),
            components: self.copy_components(),
            consistent: report.consistent,
            problems,
        }
    }

    /// The components without those that are removed.
    pub fn without_locations(&self, removal: &Removal) -> (r: InstalledComponents)
        ensures
            r.contents() == (
                kept_roots(self.contents().0, *removal, self.contents().0.len()),
                kept_components(self.contents().1, *removal, self.contents().1.len()),
            ),
    {
        let ghost all_roots = location_views(self.roots@);
        let ghost all = loaded_views(self.components@);
        let mut roots: Vec<ComponentLocation> = Vec::new();
        let mut i: usize = 0;
        assert(location_views(roots@) =~= Seq::<LocationView>::empty());
        while i < self.roots.len()
            invariant
                i <= self.roots@.len(),
                all_roots == location_views(self.roots@),
                location_views(roots@) == kept_roots(all_roots, *removal, i as nat),
            decreases self.roots@.len() - i,
        {
            assert(all_roots[i as int] == self.roots@[i as int]@);
            if !removal.removes(&self.roots[i]) {
                push_location(&mut roots, self.roots[i].copy());
            }
            i = i + 1;
        }
        let mut components: Vec<LoadedComponent> = Vec::new();
        let mut j: usize = 0;
        assert(loaded_views(components@) =~= Seq::<LoadedView>::empty());
        while j < self.components.len()
            invariant
                j <= self.components@.len(),
                all == loaded_views(self.components@),
                loaded_views(components@) == kept_components(all, *removal, j as nat),
            decreases self.components@.len() - j,
        {
            assert(all[j as int] == self.components@[j as int].contents());
            if !removal.removes(&self.components[j].source) {
                push_loaded(&mut components, self.components[j].copy());
            }
            j = j + 1;
        }
        InstalledComponents { roots, components }
    }

    /// The components without those that have one of the IDs.
    pub fn without_component_ids(&self, ids: &Vec<String>) -> (r: InstalledComponents)
        ensures
            r.contents() == (
                self.contents().0,
                other_components(self.contents().1, views(ids@), self.contents().1.len()),
            ),
    {
        let ghost all = loaded_views(self.components@);
        let mut components: Vec<LoadedComponent> = Vec::new();
        let mut j: usize = 0;
        assert(loaded_views(components@) =~= Seq::<LoadedView>::empty());
        while j < self.components.len()
            invariant
                j <= self.components@.len(),
                all == loaded_views(self.components@),
                loaded_views(components@) == other_components(all, views(ids@), j as nat),
            decreases self.components@.len() - j,
        {
            assert(all[j as int] == self.components@[j as int].contents());
            if !contains_str(ids, self.components[j].component.id.as_str()) {
                push_loaded(&mut components, self.components[j].copy());
            }
            j = j + 1;
        }
        InstalledComponents { roots: self.copy_roots(), components }
    }

    /// Adds the components that a bundle declares.
    pub fn add_bundle_components(&mut self, declared: Vec<(String, Component)>)
        ensures
            final(self).contents() == (
                old(self).contents().0.push(bundle_location()),
                old(self).contents().1 + bundled(pair_views(declared@)),
            ),
    {
        let root = ComponentLocation::bundle_root();
        let ghost start = loaded_views(self.components@);
        let ghost added = bundled(pair_views(declared@));
        let mut i: usize = 0;
        assert(start + added.take(0) =~= start);
        while i < declared.len()
            invariant
                i <= declared@.len(),
                root@ == bundle_location(),
                added == bundled(pair_views(declared@)),
                self.roots == old(self).roots,
                loaded_views(self.components@) == start + added.take(i as int),
            decreases declared@.len() - i,
        {
            let source = root.bundle_file_location(declared[i].0.as_str());
            let loaded = LoadedOf { source, component: declared[i].1.copy() };
            assert(loaded.contents() == added[i as int]);
            push_loaded(&mut self.components, loaded);
            i = i + 1;
            assert(start + added.take(i as int) =~= (start + added.take(i - 1)).push(
                added[i - 1],
            ));
        }
        assert(added.take(i as int) =~= added);
        push_location(&mut self.roots, root);
    }

    /// The components after a system update: those of the system are replaced by those
    /// that the bundle declares.
    pub fn system_update_candidate(&self, files: &Vec<BundleComponentFile>) -> (r: Result<
        InstalledComponents,
        BundleComponentsError,
    >)
        ensures
            match r {
                Ok(candidate) => exists|declared: Seq<(Seq<char>, ComponentView)>|
                    #[trigger] sorted_declarations(files@, declared) && candidate.contents()
                        == replaced(self.contents(), Removal::System, Some(declared)),
                Err(e) => declarations_error(files@, e@),
            },
    {
        self.replace(&Removal::System, Some(files))
    }

    /// The components after an incremental update: those that the bundle declares replace
    /// those with the same IDs.
    pub fn incremental_update_candidate(&self, files: &Vec<BundleComponentFile>) -> (r: Result<
        InstalledComponents,
        BundleComponentsError,
    >)
        ensures
            match r {
                Ok(candidate) => exists|declared: Seq<(Seq<char>, ComponentView)>|
                    #[trigger] sorted_declarations(files@, declared) && candidate.contents()
                        == updated(self.contents(), declared),
                Err(e) => declarations_error(files@, e@),
            },
    {
        let declared = match read_bundle_components(files) {
            Ok(declared) => declared,
            Err(e) => return Err(e),
        };
        let mut ids: Vec<String> = Vec::new();
        let mut i: usize = 0;
        while i < declared.len()
            invariant
                i <= declared@.len(),
                ids@.len() == i,
                forall|j: int| 0 <= j < i ==> (#[trigger] ids@[j])@ == declared@[j].1.id@,
            decreases declared@.len() - i,
        {
            ids.push(declared[i].1.id.clone());
            i = i + 1;
        }
        assert(views(ids@) =~= declared_ids(pair_views(declared@)));
        let mut candidate = self.without_component_ids(&ids);
        candidate.add_bundle_components(declared);
        Ok(candidate)
    }

    /// The components after an update of apps: those of the touched apps are replaced by
    /// those that the bundle declares, if it declares any.
    pub fn app_update_candidate(
        &self,
        touched_apps: Vec<String>,
        files: Option<&Vec<BundleComponentFile>>,
    ) -> (r: Result<InstalledComponents, BundleComponentsError>)
        ensures
            match (r, files) {
                (Ok(candidate), Some(files)) => exists|declared: Seq<(Seq<char>, ComponentView)>|
                    #[trigger] sorted_declarations(files@, declared) && candidate.contents()
                        == replaced(self.contents(), Removal::Apps(touched_apps), Some(declared)),
                (Ok(candidate), None) => candidate.contents() == replaced(
                    self.contents(),
                    Removal::Apps(touched_apps),
                    None,
                ),
                (Err(e), Some(files)) => declarations_error(files@, e@),
                (Err(_), None) => false,
            },
    {
        self.replace(&Removal::Apps(touched_apps), files)
    }

    /// The components after an app is removed.
    pub fn app_removal_candidate(&self, app: String) -> (r: InstalledComponents)
        ensures
            r.contents() == replaced(self.contents(), Removal::App(app), None),
    {
        self.without_locations(&Removal::App(app))
    }

    /// The components after another generation of an app is activated: those of the app are
    /// replaced by those of the generation.
    pub fn app_generation_candidate(
        &self,
        app: String,
        generation: u64,
        component_root: &str,
        files: Vec<(String, Component)>,
    ) -> (r: InstalledComponents)
        ensures
            r.contents() == with_generation(
                self.contents(),
                app,
                generation,
                component_root@,
                pair_views(files@),
            ),
    {
        let root = ComponentLocation::app(app.as_str(), generation, component_root);
        let mut candidate = self.without_locations(&Removal::App(app));
        candidate.load_root(root, files);
        candidate
    }

    /// Check whether replacing system components with bundle-declared components is
    /// consistent.
    pub fn check_system_update(
        &self,
        files: &Vec<BundleComponentFile>,
        check: impl FnOnce(&InstalledComponents) -> CheckReport,
    ) -> (r: Result<ComponentsCheckOutput, BundleComponentsError>)
        requires
            forall|candidate: InstalledComponents| call_requires(check, (&candidate,)),
        ensures
            match r {
                Ok(output) => exists|
                    declared: Seq<(Seq<char>, ComponentView)>,
                    candidate: InstalledComponents,
                    report: CheckReport,
                |
                    #[trigger] sorted_declarations(files@, declared) && #[trigger] call_ensures(
                        check,
                        (&candidate,),
                        report,
                    ) && candidate.contents() == replaced(
                        self.contents(),
                        Removal::System,
                        Some(declared),
                    ) && output.reports(candidate.contents(), report),
                Err(e) => declarations_error(files@, e@),
            },
    {
        match self.system_update_candidate(files) {
            Ok(candidate) => {
                let output = candidate.check_output(check);
                Ok(output)
            },
            Err(e) => Err(e),
        }
    }

    /// Check whether replacing installed components declared by an incremental bundle with
    /// the bundle-declared components is consistent.
    pub fn check_incremental_update(
        &self,
        files: &Vec<BundleComponentFile>,
        check: impl FnOnce(&InstalledComponents) -> CheckReport,
    ) -> (r: Result<ComponentsCheckOutput, BundleComponentsError>)
        requires
            forall|candidate: InstalledComponents| call_requires(check, (&candidate,)),
        ensures
            match r {
                Ok(output) => exists|
                    declared: Seq<(Seq<char>, ComponentView)>,
                    candidate: InstalledComponents,
                    report: CheckReport,
                |
                    #[trigger] sorted_declarations(files@, declared) && #[trigger] call_ensures(
                        check,
                        (&candidate,),
                        report,
                    ) && candidate.contents() == updated(self.contents(), declared)
                        && output.reports(candidate.contents(), report),
                Err(e) => declarations_error(files@, e@),
            },
    {
        match self.incremental_update_candidate(files) {
            Ok(candidate) => {
                let output = candidate.check_output(check);
                Ok(output)
            },
            Err(e) => Err(e),
        }
    }

    /// Check whether replacing touched app components with bundle-declared components is
    /// consistent.
    pub fn check_app_update(
        &self,
        touched_apps: Vec<String>,
        files: Option<&Vec<BundleComponentFile>>,
        check: impl FnOnce(&InstalledComponents) -> CheckReport,
    ) -> (r: Result<ComponentsCheckOutput, BundleComponentsError>)
        requires
            forall|candidate: InstalledComponents| call_requires(check, (&candidate,)),
        ensures
            match (r, files) {
                (Ok(output), Some(files)) => exists|
                    declared: Seq<(Seq<char>, ComponentView)>,
                    candidate: InstalledComponents,
                    report: CheckReport,
                |
                    #[trigger] sorted_declarations(files@, declared) && #[trigger] call_ensures(
                        check,
                        (&candidate,),
                        report,
                    ) && candidate.contents() == replaced(
                        self.contents(),
                        Removal::Apps(touched_apps),
                        Some(declared),
                    ) && output.reports(candidate.contents(), report),
                (Ok(output), None) => exists|candidate: InstalledComponents, report: CheckReport|
                    #[trigger] call_ensures(check, (&candidate,), report) && candidate.contents()
                        == replaced(self.contents(), Removal::Apps(touched_apps), None)
                        && output.reports(candidate.contents(), report),
                (Err(e), Some(files)) => declarations_error(files@, e@),
                (Err(_), None) => false,
            },
    {
        match self.app_update_candidate(touched_apps, files) {
            Ok(candidate) => {
                let output = candidate.check_output(check);
                Ok(output)
            },
            Err(e) => Err(e),
        }
    }

    /// Check whether removing the active components for an app is consistent.
    pub fn check_app_removal(
        &self,
        app: String,
        check: impl FnOnce(&InstalledComponents) -> CheckReport,
    ) -> (r: ComponentsCheckOutput)
        requires
            forall|candidate: InstalledComponents| call_requires(check, (&candidate,)),
        ensures
            exists|candidate: InstalledComponents, report: CheckReport|
                #[trigger] call_ensures(check, (&candidate,), report) && candidate.contents()
                    == replaced(self.contents(), Removal::App(app), None) && r.reports(
                    candidate.contents(),
                    report,
                ),
    {
        self.app_removal_candidate(app).check_output(check)
    }

    /// Check whether replacing the active components for an app with components from another
    /// generation is consistent.
    pub fn check_app_generation(
        &self,
        app: String,
        generation: u64,
        component_root: &str,
        files: Vec<(String, Component)>,
        check: impl FnOnce(&InstalledComponents) -> CheckReport,
    ) -> (r: ComponentsCheckOutput)
        requires
            forall|candidate: InstalledComponents| call_requires(check, (&candidate,)),
        ensures
            exists|candidate: InstalledComponents, report: CheckReport|
                #[trigger] call_ensures(check, (&candidate,), report) && candidate.contents()
                    == with_generation(
                    self.contents(),
                    app,
                    generation,
                    component_root@,
                    pair_views(files@),
                ) && r.reports(candidate.contents(), report),
    {
        self.app_generation_candidate(app, generation, component_root, files).check_output(check)
    }

    fn replace(&self, removal: &Removal, files: Option<&Vec<BundleComponentFile>>) -> (r: Result<
        InstalledComponents,
        BundleComponentsError,
    >)
        ensures
            match (r, files) {
                (Ok(candidate), Some(files)) => exists|declared: Seq<(Seq<char>, ComponentView)>|
                    #[trigger] sorted_declarations(files@, declared) && candidate.contents()
                        == replaced(self.contents(), *removal, Some(declared)),
                (Ok(candidate), None) => candidate.contents() == replaced(
                    self.contents(),
                    *removal,
                    None,
                ),
                (Err(e), Some(files)) => declarations_error(files@, e@),
                (Err(_), None) => false,
            },
    {
        let mut candidate = self.without_locations(removal);
        if let Some(files) = files {
            match read_bundle_components(files) {
                Ok(declared) => {
                    candidate.add_bundle_components(declared);
                },
                Err(e) => {
                    return Err(e);
                },
            }
        }
        Ok(candidate)
    }
}

/// The components among the first `n` that have an ID.
pub open spec fn with_id(components: Seq<LoadedView>, id: Seq<char>, n: nat) -> Seq<LoadedView>
    decreases n,
{
    if n == 0 {
        Seq::empty()
    } else {
        let before = with_id(components, id, (n - 1) as nat);
        if components[n - 1].component.id == id {
            before.push(components[n - 1])
        } else {
            before
        }
    }
}

/// A set of components with some of them removed, and with those of a bundle added.
pub open spec fn replaced(
    set: SetView,
    removal: Removal,
    declared: Option<Seq<(Seq<char>, ComponentView)>>,
) -> SetView {
    let roots = kept_roots(set.0, removal, set.0.len());
    let components = kept_components(set.1, removal, set.1.len());
    match declared {
        Some(declared) => (roots.push(bundle_location()), components + bundled(declared)),
        None => (roots, components),
    }
}

/// A set of components with those that a bundle declares in place of those with the same
/// IDs.
pub open spec fn updated(set: SetView, declared: Seq<(Seq<char>, ComponentView)>) -> SetView {
    (
        set.0.push(bundle_location()),
        other_components(set.1, declared_ids(declared), set.1.len()) + bundled(declared),
    )
}

/// A set of components with those of another generation of an app.
pub open spec fn with_generation(
    set: SetView,
    app: String,
    generation: u64,
    component_root: Seq<char>,
    files: Seq<(Seq<char>, ComponentView)>,
) -> SetView {
    let root = LocationOf {
        kind: ComponentSourceKind::App,
        path: component_root,
        app: Some(app@),
        generation: Some(generation),
    };
    let kept = replaced(set, Removal::App(app), None);
    (kept.0.push(root), kept.1 + filed(root, files))
}

/// A removal takes away exactly the components that it covers.
pub proof fn law_removal_takes_only_what_it_covers(
    components: Seq<LoadedView>,
    removal: Removal,
    component: LoadedView,
)
    ensures
        kept_components(components, removal, components.len()).contains(component) <==> (
        components.contains(component) && !removal.covers(component.source)),
{
    lemma_kept(components, removal, component, components.len());
    assert(components.take(components.len() as int) =~= components);
}

/// Two removals that cover the same places leave the same.
proof fn lemma_same_cover(set: SetView, a: Removal, b: Removal, n: nat)
    requires
        forall|location: LocationView| #[trigger] a.covers(location) == b.covers(location),
    ensures
        kept_roots(set.0, a, n) == kept_roots(set.0, b, n),
        kept_components(set.1, a, n) == kept_components(set.1, b, n),
    decreases n,
{
    if n > 0 {
        lemma_same_cover(set, a, b, (n - 1) as nat);
        assert(a.covers(set.0[n - 1]) == b.covers(set.0[n - 1]));
        assert(a.covers(set.1[n - 1].source) == b.covers(set.1[n - 1].source));
    }
}

/// Removing an app leaves what updating it to no components leaves, and what is reported of
/// the two agrees.
pub proof fn law_removal_is_an_update_to_nothing(
    set: SetView,
    app: String,
    touched_apps: Vec<String>,
)
    requires
        views(touched_apps@) == seq![app@],
    ensures
        replaced(set, Removal::App(app), None) == replaced(set, Removal::Apps(touched_apps), None),
        forall|
            report: CheckReport,
            removed: ComponentsCheckOutput,
            updated: ComponentsCheckOutput,
        |
            #[trigger] removed.reports(replaced(set, Removal::App(app), None), report)
                && #[trigger] updated.reports(
                replaced(set, Removal::Apps(touched_apps), None),
                report,
            ) ==> {
                &&& removed.consistent == updated.consistent
                &&& location_views(removed.roots@) == location_views(updated.roots@)
                &&& loaded_views(removed.components@) == loaded_views(updated.components@)
                &&& problem_views(removed.problems@) == problem_views(updated.problems@)
            },
{
    let a = Removal::App(app);
    let b = Removal::Apps(touched_apps);
    assert forall|location: LocationView| #[trigger] a.covers(location) == b.covers(location) by {
        assert(views(touched_apps@)[0] == app@);
    }
    lemma_same_cover(set, a, b, set.0.len());
    lemma_same_cover(set, a, b, set.1.len());
}

proof fn lemma_kept(
    components: Seq<LoadedView>,
    removal: Removal,
    component: LoadedView,
    n: nat,
)
    requires
        n <= components.len(),
    ensures
        kept_components(components, removal, n).contains(component) <==> (components.take(
            n as int,
        ).contains(component) && !removal.covers(component.source)),
    decreases n,
{
    if n > 0 {
        lemma_kept(components, removal, component, (n - 1) as nat);
        let before = kept_components(components, removal, (n - 1) as nat);
        let taken = components.take(n as int);
        let fewer = components.take(n - 1);
        assert(taken.drop_last() =~= fewer);
        if taken.contains(component) {
            let i = choose|i: int| 0 <= i < n && taken[i] == component;
            if i < n - 1 {
                assert(fewer[i] == component);
            }
        }
        if fewer.contains(component) {
            let i = choose|i: int| 0 <= i < fewer.len() && fewer[i] == component;
            assert(taken[i] == component);
        }
        assert(taken[n - 1] == components[n - 1]);
        if !removal.covers(components[n - 1].source) {
            let now = before.push(components[n - 1]);
            assert(now[before.len() as int] == components[n - 1]);
            if before.contains(component) {
                let i = choose|i: int| 0 <= i < before.len() && before[i] == component;
                assert(now[i] == component);
            }
            if now.contains(component) {
                let i = choose|i: int| 0 <= i < now.len() && now[i] == component;
                if i < before.len() {
                    assert(before[i] == component);
                }
            }
        }
    }
}

proof fn lemma_kept_roots(roots: Seq<LocationView>, removal: Removal, x: LocationView, n: nat)
    requires
        n <= roots.len(),
    ensures
        kept_roots(roots, removal, n).contains(x) <==> exists|i: int|
            0 <= i < n && !removal.covers(#[trigger] roots[i]) && roots[i] == x,
    decreases n,
{
    if n > 0 {
        lemma_kept_roots(roots, removal, x, (n - 1) as nat);
        let before = kept_roots(roots, removal, (n - 1) as nat);
        let all = kept_roots(roots, removal, n);
        if before.contains(x) {
            let k = choose|k: int| 0 <= k < before.len() && before[k] == x;
            assert(all[k] == x);
        }
        if all.contains(x) {
            let k = choose|k: int| 0 <= k < all.len() && all[k] == x;
            if k < before.len() {
                assert(before[k] == x);
            } else {
                assert(!removal.covers(roots[n - 1]) && roots[n - 1] == x);
            }
        }
        if !removal.covers(roots[n - 1]) && roots[n - 1] == x {
            assert(all[before.len() as int] == x);
        }
    }
}

proof fn lemma_others(components: Seq<LoadedView>, ids: Seq<Seq<char>>, x: LoadedView, n: nat)
    requires
        n <= components.len(),
    ensures
        other_components(components, ids, n).contains(x) <==> exists|i: int|
            0 <= i < n && !ids.contains((#[trigger] components[i]).component.id) && components[i] == x,
    decreases n,
{
    if n > 0 {
        lemma_others(components, ids, x, (n - 1) as nat);
        let before = other_components(components, ids, (n - 1) as nat);
        let all = other_components(components, ids, n);
        if before.contains(x) {
            let k = choose|k: int| 0 <= k < before.len() && before[k] == x;
            assert(all[k] == x);
        }
        if all.contains(x) {
            let k = choose|k: int| 0 <= k < all.len() && all[k] == x;
            if k < before.len() {
                assert(before[k] == x);
            } else {
                assert(!ids.contains((components[n - 1]).component.id) && components[n - 1] == x);
            }
        }
        if !ids.contains((components[n - 1]).component.id) && components[n - 1] == x {
            assert(all[before.len() as int] == x);
        }
    }
}

proof fn lemma_with_id(components: Seq<LoadedView>, id: Seq<char>, x: LoadedView, n: nat)
    requires
        n <= components.len(),
    ensures
        with_id(components, id, n).contains(x) <==> exists|i: int|
            0 <= i < n && (#[trigger] components[i]).component.id == id && components[i] == x,
    decreases n,
{
    if n > 0 {
        lemma_with_id(components, id, x, (n - 1) as nat);
        let before = with_id(components, id, (n - 1) as nat);
        let all = with_id(components, id, n);
        if before.contains(x) {
            let k = choose|k: int| 0 <= k < before.len() && before[k] == x;
            assert(all[k] == x);
        }
        if all.contains(x) {
            let k = choose|k: int| 0 <= k < all.len() && all[k] == x;
            if k < before.len() {
                assert(before[k] == x);
            } else {
                assert((components[n - 1]).component.id == id && components[n - 1] == x);
            }
        }
        if (components[n - 1]).component.id == id && components[n - 1] == x {
            assert(all[before.len() as int] == x);
        }
    }
}

proof fn lemma_sources(components: Seq<LoadedView>, id: Seq<char>, x: LocationView, n: nat)
    requires
        n <= components.len(),
    ensures
        sources_of(components, id, n).contains(x) <==> exists|i: int|
            0 <= i < n && (#[trigger] components[i]).component.id == id && components[i].source == x,
    decreases n,
{
    if n > 0 {
        lemma_sources(components, id, x, (n - 1) as nat);
        let before = sources_of(components, id, (n - 1) as nat);
        let all = sources_of(components, id, n);
        if before.contains(x) {
            let k = choose|k: int| 0 <= k < before.len() && before[k] == x;
            assert(all[k] == x);
        }
        if all.contains(x) {
            let k = choose|k: int| 0 <= k < all.len() && all[k] == x;
            if k < before.len() {
                assert(before[k] == x);
            } else {
                assert((components[n - 1]).component.id == id && components[n - 1].source == x);
            }
        }
        if (components[n - 1]).component.id == id && components[n - 1].source == x {
            assert(all[before.len() as int] == x);
        }
    }
}

/// Whether a component is one that a bundle declares, at its place in the bundle.
pub open spec fn is_declared(
    declared: Seq<(Seq<char>, ComponentView)>,
    component: LoadedView,
) -> bool {
    exists|i: int|
        0 <= i < declared.len() && (#[trigger] declared[i]).1 == component.component
            && component.source == (LocationOf {
            kind: ComponentSourceKind::Bundle,
            path: path_join("components"@, declared[i].0),
            app: None,
            generation: None,
        })
}

proof fn lemma_bundled(declared: Seq<(Seq<char>, ComponentView)>, component: LoadedView)
    ensures
        bundled(declared).contains(component) <==> is_declared(declared, component),
{
    let all = bundled(declared);
    if all.contains(component) {
        let i = choose|i: int| 0 <= i < all.len() && all[i] == component;
        assert(declared[i].1 == component.component);
    }
    if is_declared(declared, component) {
        let i = choose|i: int|
            0 <= i < declared.len() && (#[trigger] declared[i]).1 == component.component
                && component.source == (LocationOf {
                kind: ComponentSourceKind::Bundle,
                path: path_join("components"@, declared[i].0),
                app: None,
                generation: None,
            });
        assert(all[i] == component);
    }
}

proof fn lemma_sum_contains<A>(a: Seq<A>, b: Seq<A>, x: A)
    ensures
        (a + b).contains(x) <==> a.contains(x) || b.contains(x),
{
    if a.contains(x) {
        let i = choose|i: int| 0 <= i < a.len() && a[i] == x;
        assert((a + b)[i] == x);
    }
    if b.contains(x) {
        let i = choose|i: int| 0 <= i < b.len() && b[i] == x;
        assert((a + b)[a.len() + i] == x);
    }
    if (a + b).contains(x) {
        let i = choose|i: int| 0 <= i < (a + b).len() && (a + b)[i] == x;
        if i < a.len() {
            assert(a[i] == x);
        } else {
            assert(b[i - a.len()] == x);
        }
    }
}

/// After a system update the components are those that were not the system's, and those that
/// the bundle declares.
pub proof fn law_system_update_replaces_the_system(
    set: SetView,
    declared: Seq<(Seq<char>, ComponentView)>,
    component: LoadedView,
)
    ensures
        replaced(set, Removal::System, Some(declared)).1.contains(component) <==> is_declared(
            declared,
            component,
        ) || set.1.contains(component) && !(component.source.kind is System),
{
    law_removal_takes_only_what_it_covers(set.1, Removal::System, component);
    lemma_bundled(declared, component);
    lemma_sum_contains(
        kept_components(set.1, Removal::System, set.1.len()),
        bundled(declared),
        component,
    );
}

/// After an update of apps the components are those that belong to none of the touched apps,
/// and those that the bundle declares, if it declares any.
pub proof fn law_app_update_replaces_the_touched_apps(
    set: SetView,
    touched: Vec<String>,
    declared: Option<Seq<(Seq<char>, ComponentView)>>,
    component: LoadedView,
)
    ensures
        ({
            let source = component.source;
            let is_touched = source.kind is App && source.app is Some && views(touched@).contains(
                source.app->0,
            );
            replaced(set, Removal::Apps(touched), declared).1.contains(component) <==> (
            declared is Some && is_declared(declared->0, component)) || set.1.contains(component)
                && !is_touched
        }),
{
    let removal = Removal::Apps(touched);
    law_removal_takes_only_what_it_covers(set.1, removal, component);
    if let Some(declared) = declared {
        lemma_bundled(declared, component);
        lemma_sum_contains(
            kept_components(set.1, removal, set.1.len()),
            bundled(declared),
            component,
        );
    }
}

/// After an app is removed the components are those that do not belong to it, and its places
/// are gone too.
pub proof fn law_app_removal_takes_the_app(
    set: SetView,
    app: String,
    component: LoadedView,
    root: LocationView,
)
    ensures
        replaced(set, Removal::App(app), None).1.contains(component) <==> set.1.contains(component)
            && !(component.source.kind is App && component.source.app == Some(app@)),
        replaced(set, Removal::App(app), None).0.contains(root) <==> set.0.contains(root) && !(
        root.kind is App && root.app == Some(app@)),
{
    law_removal_takes_only_what_it_covers(set.1, Removal::App(app), component);
    let removal = Removal::App(app);
    lemma_kept_roots(set.0, removal, root, set.0.len());
    if set.0.contains(root) && !removal.covers(root) {
        let i = choose|i: int| 0 <= i < set.0.len() && set.0[i] == root;
        assert(!removal.covers(set.0[i]) && set.0[i] == root);
    }
}

/// After an incremental update the components are those whose IDs the bundle does not
/// declare, and those that it declares.
pub proof fn law_incremental_update_replaces_the_same_ids(
    set: SetView,
    declared: Seq<(Seq<char>, ComponentView)>,
    component: LoadedView,
)
    ensures
        ({
            let is_replaced = exists|i: int|
                0 <= i < declared.len() && (#[trigger] declared[i]).1.id == component.component.id;
            updated(set, declared).1.contains(component) <==> is_declared(declared, component)
                || set.1.contains(component) && !is_replaced
        }),
{
    let ids = declared_ids(declared);
    let id = component.component.id;
    let others = other_components(set.1, ids, set.1.len());
    lemma_others(set.1, ids, component, set.1.len());
    lemma_bundled(declared, component);
    lemma_sum_contains(others, bundled(declared), component);
    assert(ids.contains(id) <==> exists|i: int|
        0 <= i < declared.len() && (#[trigger] declared[i]).1.id == id) by {
        if ids.contains(id) {
            let i = choose|i: int| 0 <= i < ids.len() && ids[i] == id;
            assert(declared[i].1.id == id);
        }
        if exists|i: int| 0 <= i < declared.len() && (#[trigger] declared[i]).1.id == id {
            let i = choose|i: int| 0 <= i < declared.len() && (#[trigger] declared[i]).1.id == id;
            assert(ids[i] == id);
        }
    }
    if set.1.contains(component) && !ids.contains(id) {
        let i = choose|i: int| 0 <= i < set.1.len() && set.1[i] == component;
        assert(!ids.contains(set.1[i].component.id) && set.1[i] == component);
    }
}

/// Whether a component is one of the files of a place.
pub open spec fn is_filed(
    root: LocationView,
    files: Seq<(Seq<char>, ComponentView)>,
    component: LoadedView,
) -> bool {
    exists|i: int|
        0 <= i < files.len() && (#[trigger] files[i]).1 == component.component
            && component.source.path == files[i].0 && component.source.kind == root.kind
            && component.source.app == root.app && component.source.generation == root.generation
}

proof fn lemma_filed(
    root: LocationView,
    files: Seq<(Seq<char>, ComponentView)>,
    component: LoadedView,
)
    ensures
        filed(root, files).contains(component) <==> is_filed(root, files, component),
{
    let all = filed(root, files);
    if all.contains(component) {
        let i = choose|i: int| 0 <= i < all.len() && all[i] == component;
        assert(files[i].1 == component.component);
    }
    if is_filed(root, files, component) {
        let i = choose|i: int|
            0 <= i < files.len() && (#[trigger] files[i]).1 == component.component
                && component.source.path == files[i].0 && component.source.kind == root.kind
                && component.source.app == root.app && component.source.generation
                == root.generation;
        assert(all[i] == component);
    }
}

/// After another generation of an app is activated the components are those of that
/// generation in place of those that the app had.
pub proof fn law_activation_replaces_the_components_of_the_app(
    set: SetView,
    app: String,
    generation: u64,
    component_root: Seq<char>,
    files: Seq<(Seq<char>, ComponentView)>,
    component: LoadedView,
)
    ensures
        ({
            let root = LocationOf {
                kind: ComponentSourceKind::App,
                path: component_root,
                app: Some(app@),
                generation: Some(generation),
            };
            let after = with_generation(set, app, generation, component_root, files);
            &&& after.1.contains(component) <==> is_filed(root, files, component)
                || set.1.contains(component) && !(component.source.kind is App
                && component.source.app == Some(app@))
            &&& after.0.len() > 0 && after.0.last() == root
        }),
{
    let root = LocationOf {
        kind: ComponentSourceKind::App,
        path: component_root,
        app: Some(app@),
        generation: Some(generation),
    };
    law_removal_takes_only_what_it_covers(set.1, Removal::App(app), component);
    lemma_filed(root, files, component);
    lemma_sum_contains(
        kept_components(set.1, Removal::App(app), set.1.len()),
        filed(root, files),
        component,
    );
}

proof fn lemma_loaded(roots: Seq<RootFiles>, component: LoadedView, n: nat)
    requires
        n <= roots.len(),
    ensures
        loaded_roots(roots, n).1.contains(component) <==> exists|i: int|
            0 <= i < n && is_filed(
                (#[trigger] roots[i]).location@,
                pair_views(roots[i].files@),
                component,
            ),
        loaded_roots(roots, n).0.len() == n,
        forall|i: int| 0 <= i < n ==> loaded_roots(roots, n).0[i] == (#[trigger] roots[i]).location@,
    decreases n,
{
    if n > 0 {
        lemma_loaded(roots, component, (n - 1) as nat);
        let root = roots[n - 1];
        lemma_filed(root.location@, pair_views(root.files@), component);
        lemma_sum_contains(
            loaded_roots(roots, (n - 1) as nat).1,
            filed(root.location@, pair_views(root.files@)),
            component,
        );
    }
}

/// The installed components are those of the files of all roots, each with the place that it
/// comes from.
pub proof fn law_components_of_all_roots_are_installed(
    roots: Seq<RootFiles>,
    component: LoadedView,
)
    ensures
        ({
            let (places, components) = loaded_roots(roots, roots.len());
            &&& components.contains(component) <==> exists|i: int|
                0 <= i < roots.len() && is_filed(
                    (#[trigger] roots[i]).location@,
                    pair_views(roots[i].files@),
                    component,
                )
            &&& places.len() == roots.len()
            &&& forall|i: int|
                0 <= i < roots.len() ==> places[i] == (#[trigger] roots[i]).location@
        }),
{
    lemma_loaded(roots, component, roots.len());
}

/// What is shown of an ID are all components that have it, and no other ones.
pub proof fn law_all_components_of_an_id_are_shown(
    components: Seq<LoadedView>,
    id: Seq<char>,
    component: LoadedView,
)
    ensures
        with_id(components, id, components.len()).contains(component) <==> components.contains(
            component,
        ) && component.component.id == id,
{
    lemma_with_id(components, id, component, components.len());
    if components.contains(component) && component.component.id == id {
        let i = choose|i: int| 0 <= i < components.len() && components[i] == component;
        assert(components[i].component.id == id && components[i] == component);
    }
}

proof fn lemma_first_source(components: Seq<LoadedView>, id: Seq<char>, from: nat)
    ensures
        match first_source(components, id, from) {
            Some(source) => exists|i: int|
                from <= i < components.len() && (#[trigger] components[i]).component.id == id
                    && components[i].source == source && forall|k: int|
                    from <= k < i ==> (#[trigger] components[k]).component.id != id,
            None => forall|k: int|
                from <= k < components.len() ==> (#[trigger] components[k]).component.id != id,
        },
    decreases components.len() - from,
{
    if from < components.len() {
        if components[from as int].component.id == id {
            assert(components[from as int].component.id == id);
        } else {
            lemma_first_source(components, id, from + 1);
            if let Some(source) = first_source(components, id, from) {
                let i = choose|i: int|
                    from + 1 <= i < components.len() && (
                    #[trigger] components[i]).component.id == id && components[i].source == source
                        && forall|k: int|
                        from + 1 <= k < i ==> (#[trigger] components[k]).component.id != id;
                assert(components[i].component.id == id);
            }
        }
    }
}

/// A component that is installed more than once is reported with all of its places. Any other
/// problem names the first place of each component that it is about.
pub proof fn law_problems_are_located(
    components: Seq<LoadedView>,
    id: Seq<char>,
    source: LocationView,
)
    ensures
        sources_of(components, id, components.len()).contains(source) <==> exists|i: int|
            0 <= i < components.len() && (#[trigger] components[i]).component.id == id
                && components[i].source == source,
        reference(components, id).id == id,
        match reference(components, id).source {
            Some(first) => exists|i: int|
                0 <= i < components.len() && (#[trigger] components[i]).component.id == id
                    && components[i].source == first && forall|k: int|
                    0 <= k < i ==> (#[trigger] components[k]).component.id != id,
            None => forall|k: int|
                0 <= k < components.len() ==> (#[trigger] components[k]).component.id != id,
        },
{
    lemma_sources(components, id, source, components.len());
    lemma_first_source(components, id, 0);
}

} // verus!
