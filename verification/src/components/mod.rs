//! Compatibility components.

use vstd::prelude::*;
use crate::path::{join, path_join};
use crate::text::{clone_opt, clone_strings, has_prefix, opt_view, strip_prefix, views};

pub mod bundle;
pub mod format;
pub mod installed;
pub mod writer_runs;

verus! {

/// Where components come from.
#[derive(Debug, Clone, Copy, PartialEq, Eq, Structural)]
pub enum ComponentSourceKind {
    System,
    Local,
    Runtime,
    App,
    Bundle,
    Synthetic,
}

/// A place that components come from. `S` is a text.
#[derive(Debug)]
pub struct LocationOf<S> {
    pub kind: ComponentSourceKind,
    pub path: S,
    pub app: Option<S>,
    pub generation: Option<u64>,
}

/// A place that components come from.
pub type ComponentLocation = LocationOf<String>;

/// A place, as the contracts speak of it.
pub type LocationView = LocationOf<Seq<char>>;

impl View for LocationOf<String> {
    type V = LocationOf<Seq<char>>;

    open spec fn view(&self) -> LocationView {
        LocationOf {
            kind: self.kind,
            path: self.path@,
            app: opt_view(self.app),
            generation: self.generation,
        }
    }
}

impl LocationOf<String> {
    /// A directory of components.
    pub fn new(kind: ComponentSourceKind, path: &str) -> (r: Self)
        ensures
            r@ == (LocationOf { kind, path: path@, app: None, generation: None }),
    {
        LocationOf { kind, path: path.to_owned(), app: None, generation: None }
    }

    /// The components of a generation of an app.
    pub fn app(app: &str, generation: u64, path: &str) -> (r: Self)
        ensures
            r@ == (LocationOf {
                kind: ComponentSourceKind::App,
                path: path@,
                app: Some(app@),
                generation: Some(generation),
            }),
    {
        LocationOf {
            kind: ComponentSourceKind::App,
            path: path.to_owned(),
            app: Some(app.to_owned()),
            generation: Some(generation),
        }
    }

    /// The components that a bundle declares.
    pub fn bundle_root() -> (r: Self)
        ensures
            r@ == bundle_location(),
    {
        Self::new(ComponentSourceKind::Bundle, "components")
    }

    /// The components that stand for the host.
    pub fn synthetic_root() -> (r: Self)
        ensures
            r@ == synthetic_location(),
    {
        Self::new(ComponentSourceKind::Synthetic, "rugix:synthetic")
    }

    /// A file of this place.
    pub fn file_location(&self, path: &str) -> (r: Self)
        ensures
            r@ == (LocationOf { path: path@, ..self@ }),
    {
        LocationOf {
            kind: self.kind,
            path: path.to_owned(),
            app: clone_opt(&self.app),
            generation: self.generation,
        }
    }

    /// A file of a bundle.
    pub fn bundle_file_location(&self, path: &str) -> (r: Self)
        ensures
            r@ == entry_location(self@, path@),
    {
        let joined = join(self.path.as_str(), path);
        Self::new(self.kind, joined.as_str())
    }

    /// A component that stands for the host.
    pub fn synthetic_component_location(&self, component_id: &str) -> (r: Self)
        ensures
            r@ == entry_location(self@, component_id@),
    {
        let joined = join(self.path.as_str(), component_id);
        Self::new(self.kind, joined.as_str())
    }

    /// A copy.
    pub fn copy(&self) -> (r: Self)
        ensures
            r@ == self@,
    {
        LocationOf {
            kind: self.kind,
            path: self.path.clone(),
            app: clone_opt(&self.app),
            generation: self.generation,
        }
    }
}

/// The place of the components that a bundle declares.
pub open spec fn bundle_location() -> LocationView {
    LocationOf {
        kind: ComponentSourceKind::Bundle,
        path: "components"@,
        app: None,
        generation: None,
    }
}

/// The place of the components that stand for the host.
pub open spec fn synthetic_location() -> LocationView {
    LocationOf {
        kind: ComponentSourceKind::Synthetic,
        path: "rugix:synthetic"@,
        app: None,
        generation: None,
    }
}

/// An entry of a place.
pub open spec fn entry_location(root: LocationView, path: Seq<char>) -> LocationView {
    LocationOf { kind: root.kind, path: path_join(root.path, path), app: None, generation: None }
}

/// A capability, or what is asked of one: with a version, with a value, or plain.
#[derive(Debug)]
pub struct CapabilityOf<S> {
    pub id: S,
    pub version: Option<S>,
    pub value: Option<S>,
}

/// A capability that a component provides.
pub type Capability = CapabilityOf<String>;

/// What is asked of a capability.
pub type CapabilitySelector = CapabilityOf<String>;

/// A capability, as the contracts speak of it.
pub type CapabilityView = CapabilityOf<Seq<char>>;

impl View for CapabilityOf<String> {
    type V = CapabilityOf<Seq<char>>;

    open spec fn view(&self) -> CapabilityView {
        CapabilityOf { id: self.id@, version: opt_view(self.version), value: opt_view(self.value) }
    }
}

impl CapabilityOf<String> {
    /// A plain capability.
    pub fn new(id: &str) -> (r: Self)
        ensures
            r@ == (CapabilityOf { id: id@, version: None, value: None }),
    {
        CapabilityOf { id: id.to_owned(), version: None, value: None }
    }

    /// A capability with a version.
    pub fn versioned(id: &str, version: &str) -> (r: Self)
        ensures
            r@ == (CapabilityOf { id: id@, version: Some(version@), value: None }),
    {
        CapabilityOf { id: id.to_owned(), version: Some(version.to_owned()), value: None }
    }

    /// A capability with a value.
    pub fn value(id: &str, value: &str) -> (r: Self)
        ensures
            r@ == (CapabilityOf { id: id@, version: None, value: Some(value@) }),
    {
        CapabilityOf { id: id.to_owned(), version: None, value: Some(value.to_owned()) }
    }

    /// A copy.
    pub fn copy(&self) -> (r: Self)
        ensures
            r@ == self@,
    {
        CapabilityOf {
            id: self.id.clone(),
            version: clone_opt(&self.version),
            value: clone_opt(&self.value),
        }
    }
}

/// The capabilities of a list.
pub open spec fn capability_views(list: Seq<Capability>) -> Seq<CapabilityView> {
    Seq::new(list.len(), |i: int| list[i]@)
}

fn copy_capabilities(list: &Vec<Capability>) -> (r: Vec<Capability>)
    ensures
        capability_views(r@) == capability_views(list@),
{
    let mut r: Vec<Capability> = Vec::new();
    let mut i: usize = 0;
    while i < list.len()
        invariant
            i <= list@.len(),
            r@.len() == i,
            forall|j: int| 0 <= j < i ==> (#[trigger] r@[j])@ == list@[j]@,
        decreases list@.len() - i,
    {
        r.push(list[i].copy());
        i = i + 1;
    }
    assert(capability_views(r@) =~= capability_views(list@));
    r
}

/// A component. `S` is a text, `C` a list of capabilities, `T` a list of texts.
#[derive(Debug)]
pub struct ComponentOf<S, C, T> {
    pub id: S,
    pub version: Option<S>,
    pub provides: C,
    pub claims: T,
    pub requirements: C,
    pub conflicts: C,
}

/// A component.
pub type Component = ComponentOf<String, Vec<Capability>, Vec<String>>;

/// A component, as the contracts speak of it.
pub type ComponentView = ComponentOf<Seq<char>, Seq<CapabilityView>, Seq<Seq<char>>>;

impl View for ComponentOf<String, Vec<CapabilityOf<String>>, Vec<String>> {
    type V = ComponentOf<Seq<char>, Seq<CapabilityOf<Seq<char>>>, Seq<Seq<char>>>;

    open spec fn view(&self) -> ComponentView {
        ComponentOf {
            id: self.id@,
            version: opt_view(self.version),
            provides: capability_views(self.provides@),
            claims: views(self.claims@),
            requirements: capability_views(self.requirements@),
            conflicts: capability_views(self.conflicts@),
        }
    }
}

/// A component that declares nothing.
pub open spec fn bare_component(id: Seq<char>, version: Option<Seq<char>>) -> ComponentView {
    ComponentOf {
        id,
        version,
        provides: Seq::empty(),
        claims: Seq::empty(),
        requirements: Seq::empty(),
        conflicts: Seq::empty(),
    }
}

impl ComponentOf<String, Vec<CapabilityOf<String>>, Vec<String>> {
    /// A component that declares nothing.
    pub fn new(id: &str) -> (r: Self)
        ensures
            r@ == bare_component(id@, None),
    {
        Self::with_optional_version(id, None)
    }

    /// A component with or without a version that declares nothing.
    pub fn with_optional_version(id: &str, version: Option<String>) -> (r: Self)
        ensures
            r@ == bare_component(id@, opt_view(version)),
    {
        let provides: Vec<Capability> = Vec::new();
        let requirements: Vec<Capability> = Vec::new();
        let conflicts: Vec<Capability> = Vec::new();
        let claims: Vec<String> = Vec::new();
        assert(capability_views(provides@) =~= Seq::<CapabilityView>::empty());
        assert(capability_views(requirements@) =~= Seq::<CapabilityView>::empty());
        assert(capability_views(conflicts@) =~= Seq::<CapabilityView>::empty());
        assert(views(claims@) =~= Seq::<Seq<char>>::empty());
        ComponentOf { id: id.to_owned(), version, provides, claims, requirements, conflicts }
    }

    /// The component with another capability that it provides.
    pub fn with_provided_capability(self, capability: Capability) -> (r: Self)
        ensures
            r@ == (ComponentOf { provides: self@.provides.push(capability@), ..self@ }),
    {
        let ghost before = self@.provides;
        let mut component = self;
        component.provides.push(capability);
        assert(capability_views(component.provides@) =~= before.push(capability@));
        component
    }

    /// The component with another claim.
    pub fn with_claim(self, claim: &str) -> (r: Self)
        ensures
            r@ == (ComponentOf { claims: self@.claims.push(claim@), ..self@ }),
    {
        let ghost before = self@.claims;
        let mut component = self;
        component.claims.push(claim.to_owned());
        assert(views(component.claims@) =~= before.push(claim@));
        component
    }

    /// The component with another requirement.
    pub fn with_requirement(self, selector: CapabilitySelector) -> (r: Self)
        ensures
            r@ == (ComponentOf { requirements: self@.requirements.push(selector@), ..self@ }),
    {
        let ghost before = self@.requirements;
        let mut component = self;
        component.requirements.push(selector);
        assert(capability_views(component.requirements@) =~= before.push(selector@));
        component
    }

    /// The component with another conflict.
    pub fn with_conflict(self, selector: CapabilitySelector) -> (r: Self)
        ensures
            r@ == (ComponentOf { conflicts: self@.conflicts.push(selector@), ..self@ }),
    {
        let ghost before = self@.conflicts;
        let mut component = self;
        component.conflicts.push(selector);
        assert(capability_views(component.conflicts@) =~= before.push(selector@));
        component
    }

    /// A copy.
    pub fn copy(&self) -> (r: Self)
        ensures
            r@ == self@,
    {
        ComponentOf {
            id: self.id.clone(),
            version: clone_opt(&self.version),
            provides: copy_capabilities(&self.provides),
            claims: clone_strings(&self.claims),
            requirements: copy_capabilities(&self.requirements),
            conflicts: copy_capabilities(&self.conflicts),
        }
    }
}

/// The capability that stands for the running version: as a version where it can be
/// understood as one, with or without a `v` at its front, else as a value.
pub open spec fn ctrl_capability(
    version: Seq<char>,
    whole: Option<Seq<char>>,
    stripped: Option<Seq<char>>,
) -> CapabilityView {
    CapabilityOf {
        id: "rugix.ctrl"@,
        version: if whole is Some {
            whole
        } else if has_prefix(version, "v"@) {
            stripped
        } else {
            None
        },
        value: if whole is Some || (has_prefix(version, "v"@) && stripped is Some) {
            None
        } else {
            Some(version)
        },
    }
}

/// The capability that stands for the running version. `parse` gives a version in its
/// normal form, where the text is one.
pub fn rugix_ctrl_capability(version: &str, parse: impl Fn(&str) -> Option<String>) -> (r:
    Capability)
    requires
        forall|text: &str| call_requires(parse, (text,)),
    ensures
        exists|whole: Option<String>, stripped: Option<String>|
            #![trigger opt_view(whole), opt_view(stripped)]
            call_ensures(parse, (version,), whole) && (whole is Some || !has_prefix(
                version@,
                "v"@,
            ) || exists|rest: &str|
                rest@ == version@.skip(1) && #[trigger] call_ensures(parse, (rest,), stripped))
                && r@ == ctrl_capability(version@, opt_view(whole), opt_view(stripped)),
{
    let whole = parse(version);
    let ghost parsed_whole = whole;
    match whole {
        Some(text) => {
            let r = Capability::versioned("rugix.ctrl", text.as_str());
            assert(r@ == ctrl_capability(version@, opt_view(parsed_whole), opt_view(None)));
            r
        },
        None => match strip_prefix(version, "v") {
            Some(rest) => {
                proof {
                    reveal_strlit("v");
                }
                let stripped = parse(rest.as_str());
                let ghost parsed_stripped = stripped;
                let r = match stripped {
                    Some(text) => Capability::versioned("rugix.ctrl", text.as_str()),
                    None => Capability::value("rugix.ctrl", version),
                };
                assert(r@ == ctrl_capability(
                    version@,
                    opt_view(parsed_whole),
                    opt_view(parsed_stripped),
                ));
                r
            },
            None => {
                let r = Capability::value("rugix.ctrl", version);
                assert(r@ == ctrl_capability(version@, opt_view(parsed_whole), opt_view(None)));
                r
            },
        },
    }
}

/// The component that stands for the host.
pub fn synthetic_host_component(arch: &str, ctrl: Capability) -> (r: Component)
    ensures
        r@ == (ComponentOf {
            provides: seq![
                CapabilityOf { id: "host.arch"@, version: None, value: Some(arch@) },
                ctrl@,
            ],
            ..bare_component("rugix.host"@, None)
        }),
{
    let r = Component::new("rugix.host").with_provided_capability(
        Capability::value("host.arch", arch),
    ).with_provided_capability(ctrl);
    assert(r@.provides =~= seq![
        CapabilityOf { id: "host.arch"@, version: None, value: Some(arch@) },
        ctrl@,
    ]);
    r
}

/// The running version is shown in one way: as a version where the text is one, as it stands
/// or else without a `v` at its front, and as the text itself where it is not.
pub proof fn law_running_version_is_shown_once(
    version: Seq<char>,
    whole: Option<Seq<char>>,
    stripped: Option<Seq<char>>,
)
    ensures
        ({
            let r = ctrl_capability(version, whole, stripped);
            &&& r.id == "rugix.ctrl"@
            &&& r.version is Some <==> r.value is None
            &&& whole is Some ==> r.version == whole
            &&& whole is None && r.version is Some ==> r.version == stripped && version.len() > 0
                && version[0] == 'v'
            &&& stripped is Some && version.len() > 0 && version[0] == 'v' ==> r.version is Some
            &&& r.value matches Some(text) ==> text == version
        }),
{
    reveal_strlit("v");
    if version.len() > 0 && version[0] == 'v' {
        assert(version.take(1) =~= "v"@);
    }
    if has_prefix(version, "v"@) {
        assert(version[0] == "v"@[0]);
    }
}

} // verus!
