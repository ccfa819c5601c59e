//! Component declarations.

use vstd::prelude::*;
use crate::components::{
    capability_views, Capability, CapabilityOf, CapabilityView, Component, ComponentOf,
};
use crate::path::{extension, path_extension};
use crate::text::{
    ascii_lowered, clone_strings, concat, eq_ignore_ascii_case, opt_view, views,
};

verus! {

/// A capability, or a selector of one, as it is declared.
#[derive(Debug)]
pub struct CapabilityDeclaration {
    pub id: String,
    pub version: Option<String>,
    pub value: Option<String>,
}

/// A component as it is declared.
#[derive(Debug)]
pub struct ComponentDeclaration {
    pub id: String,
    pub version: Option<String>,
    pub provides: Option<Vec<CapabilityDeclaration>>,
    /// The IDs of the claims.
    pub claims: Option<Vec<String>>,
    pub requirements: Option<Vec<CapabilityDeclaration>>,
    pub conflicts: Option<Vec<CapabilityDeclaration>>,
    /// The first field that is not known.
    pub unknown_field: Option<String>,
}

/// A part of a declaration.
#[derive(Debug, Clone, Copy, PartialEq, Eq, Structural)]
pub enum DeclarationPart {
    Provides,
    Requires,
    Conflicts,
}

impl DeclarationPart {
    /// Whether the entries of the part select capabilities.
    pub open spec fn selects(self) -> bool {
        !(self is Provides)
    }
}

/// Why a declaration is refused.
#[derive(Debug, PartialEq, Eq)]
pub enum DeclarationError {
    /// Component declaration contains an unknown field.
    UnknownField { field: String },
    /// Invalid component version.
    InvalidVersion,
    /// Invalid version of a capability, or invalid requirement on one.
    InvalidCapabilityVersion { part: DeclarationPart, index: usize },
    /// Both a version and a value are declared.
    VersionAndValue { part: DeclarationPart, index: usize },
}

impl DeclarationError {
    pub open spec fn text(self) -> Seq<char> {
        match self {
            DeclarationError::UnknownField { field } =>
                "component declaration contains an unknown field: "@ + field@,
            DeclarationError::InvalidVersion => "invalid component version"@,
            DeclarationError::InvalidCapabilityVersion { part, .. } => if part.selects() {
                "invalid capability version requirement"@
            } else {
                "invalid capability version"@
            },
            DeclarationError::VersionAndValue { part, .. } => if part.selects() {
                "capability selector must not declare both a version and a value"@
            } else {
                "capability must not declare both a version and a value"@
            },
        }
    }

    /// What is said of the error.
    pub fn message(&self) -> (r: String)
        ensures
            r@ == self.text(),
    {
        let text = match self {
            DeclarationError::UnknownField { field } => {
                return concat(
                    "component declaration contains an unknown field: ",
                    field.as_str(),
                );
            },
            DeclarationError::InvalidVersion => "invalid component version",
            DeclarationError::InvalidCapabilityVersion { part, .. } => match part {
                DeclarationPart::Provides => "invalid capability version",
                _ => "invalid capability version requirement",
            },
            DeclarationError::VersionAndValue { part, .. } => match part {
                DeclarationPart::Provides => "capability must not declare both a version and a value",
                _ => "capability selector must not declare both a version and a value",
            },
        };
        text.to_owned()
    }
}

/// How a component file is written.
#[derive(Debug, Clone, Copy, PartialEq, Eq, Structural)]
pub enum FileFormat {
    Json,
    Toml,
}

/// The format of a component file: JSON where its extension says so, else TOML.
pub open spec fn file_format(path: Seq<char>) -> FileFormat {
    if path_extension(path) is Some && ascii_lowered(path_extension(path)->0) == ascii_lowered(
        "json"@,
    ) {
        FileFormat::Json
    } else {
        FileFormat::Toml
    }
}

/// The format of a component file.
pub fn component_file_format(path: &str) -> (r: FileFormat)
    ensures
        r == file_format(path@),
{
    match extension(path) {
        Some(text) => if eq_ignore_ascii_case(text.as_str(), "json") {
            FileFormat::Json
        } else {
            FileFormat::Toml
        },
        None => FileFormat::Toml,
    }
}

/// Whether the outcome is that of a capability declaration: plain, with a version that is
/// understood, or with a value; never with both.
pub open spec fn is_capability_of<P: Fn(&str) -> Option<String>>(
    parse: P,
    declaration: CapabilityDeclaration,
    part: DeclarationPart,
    index: usize,
    r: Result<CapabilityView, DeclarationError>,
) -> bool {
    match (declaration.version, declaration.value) {
        (None, None) => r == Ok::<CapabilityView, DeclarationError>(
            CapabilityOf { id: declaration.id@, version: None, value: None },
        ),
        (None, Some(value)) => r == Ok::<CapabilityView, DeclarationError>(
            CapabilityOf { id: declaration.id@, version: None, value: Some(value@) },
        ),
        (Some(_), Some(_)) => r == Err::<CapabilityView, DeclarationError>(
            DeclarationError::VersionAndValue { part, index },
        ),
        (Some(version), None) => exists|text: &str, parsed: Option<String>|
            text@ == version@ && #[trigger] call_ensures(parse, (text,), parsed) && r
                == match parsed {
                Some(normal) => Ok::<CapabilityView, DeclarationError>(
                    CapabilityOf {
                        id: declaration.id@,
                        version: Some(normal@),
                        value: None,
                    },
                ),
                None => Err::<CapabilityView, DeclarationError>(
                    DeclarationError::InvalidCapabilityVersion { part, index },
                ),
            },
    }
}

/// The view of a result.
pub open spec fn capability_result(r: Result<Capability, DeclarationError>) -> Result<
    CapabilityView,
    DeclarationError,
> {
    match r {
        Ok(capability) => Ok(capability@),
        Err(e) => Err(e),
    }
}

/// Convert and validate one capability or selector.
pub fn capability_from_declaration<P: Fn(&str) -> Option<String>>(
    parse: &P,
    declaration: &CapabilityDeclaration,
    part: DeclarationPart,
    index: usize,
) -> (r: Result<Capability, DeclarationError>)
    requires
        forall|text: &str| call_requires(*parse, (text,)),
    ensures
        is_capability_of(*parse, *declaration, part, index, capability_result(r)),
{
    match (&declaration.version, &declaration.value) {
        (None, None) => Ok(Capability::new(declaration.id.as_str())),
        (Some(version), None) => {
            let text = version.as_str();
            let parsed = parse(text);
            let ghost outcome = parsed;
            match parsed {
                Some(normal) => {
                    let capability = Capability::versioned(
                        declaration.id.as_str(),
                        normal.as_str(),
                    );
                    assert(text@ == version@ && call_ensures(*parse, (text,), outcome));
                    Ok(capability)
                },
                None => {
                    assert(text@ == version@ && call_ensures(*parse, (text,), outcome));
                    Err(DeclarationError::InvalidCapabilityVersion { part, index })
                },
            }
        },
        (None, Some(value)) => Ok(Capability::value(declaration.id.as_str(), value.as_str())),
        (Some(_), Some(_)) => Err(DeclarationError::VersionAndValue { part, index }),
    }
}

/// The entries of an optional list.
pub open spec fn entries_of(list: Option<Vec<CapabilityDeclaration>>) -> Seq<CapabilityDeclaration> {
    match list {
        Some(list) => list@,
        None => Seq::empty(),
    }
}

/// Whether a capability declaration is accepted.
pub open spec fn is_capability<P: Fn(&str) -> Option<String>>(
    parse: P,
    declaration: CapabilityDeclaration,
    part: DeclarationPart,
    index: usize,
) -> bool {
    exists|capability: CapabilityView|
        is_capability_of(parse, declaration, part, index, Ok(capability))
}

/// Whether the outcome is that of a list of declarations: all entries in their order, or
/// the error of the first one that is refused.
pub open spec fn are_capabilities_of<P: Fn(&str) -> Option<String>>(
    parse: P,
    list: Seq<CapabilityDeclaration>,
    part: DeclarationPart,
    r: Result<Seq<CapabilityView>, DeclarationError>,
) -> bool {
    match r {
        Ok(capabilities) => capabilities.len() == list.len() && forall|i: int|
            0 <= i < list.len() ==> #[trigger] is_capability_of(
                parse,
                list[i],
                part,
                i as usize,
                Ok(capabilities[i]),
            ),
        Err(e) => exists|i: int|
            0 <= i < list.len() && #[trigger] is_capability_of(
                parse,
                list[i],
                part,
                i as usize,
                Err(e),
            ) && forall|j: int|
                0 <= j < i ==> #[trigger] is_capability(parse, list[j], part, j as usize),
    }
}

/// Whether all declarations of a list are accepted.
pub open spec fn are_capabilities<P: Fn(&str) -> Option<String>>(
    parse: P,
    list: Seq<CapabilityDeclaration>,
    part: DeclarationPart,
) -> bool {
    exists|capabilities: Seq<CapabilityView>|
        are_capabilities_of(parse, list, part, Ok(capabilities))
}

fn capabilities_from<P: Fn(&str) -> Option<String>>(
    parse: &P,
    list: &Option<Vec<CapabilityDeclaration>>,
    part: DeclarationPart,
) -> (r: Result<Vec<Capability>, DeclarationError>)
    requires
        forall|text: &str| call_requires(*parse, (text,)),
    ensures
        are_capabilities_of(
            *parse,
            entries_of(*list),
            part,
            match r {
                Ok(capabilities) => Ok(capability_views(capabilities@)),
                Err(e) => Err(e),
            },
        ),
{
    let mut capabilities: Vec<Capability> = Vec::new();
    let entries = match list {
        Some(entries) => entries,
        None => return Ok(capabilities),
    };
    let mut i: usize = 0;
    while i < entries.len()
        invariant
            i <= entries@.len(),
            entries@ == entries_of(*list),
            forall|text: &str| call_requires(*parse, (text,)),
            capabilities@.len() == i,
            forall|j: int|
                0 <= j < i ==> #[trigger] is_capability_of(
                    *parse,
                    entries@[j],
                    part,
                    j as usize,
                    Ok(capability_views(capabilities@)[j]),
                ),
        decreases entries@.len() - i,
    {
        let ghost before = capability_views(capabilities@);
        match capability_from_declaration(parse, &entries[i], part, i) {
            Ok(capability) => {
                capabilities.push(capability);
                assert(capability_views(capabilities@) =~= before.push(capability@));
                assert(is_capability_of(*parse, entries@[i as int], part, i, Ok(capability@)));
            },
            Err(e) => {
                let ghost k = i as int;
                assert(is_capability_of(*parse, entries_of(*list)[k], part, k as usize, Err(e)));
                assert forall|j: int| 0 <= j < k implies #[trigger] is_capability(
                    *parse,
                    entries_of(*list)[j],
                    part,
                    j as usize,
                ) by {
                    assert(is_capability_of(
                        *parse,
                        entries@[j],
                        part,
                        j as usize,
                        Ok(capability_views(capabilities@)[j]),
                    ));
                }
                return Err(e);
            },
        }
        assert forall|j: int| 0 <= j < i + 1 implies #[trigger] is_capability_of(
            *parse,
            entries@[j],
            part,
            j as usize,
            Ok(capability_views(capabilities@)[j]),
        ) by {
            if j < i {
                assert(capability_views(capabilities@)[j] == before[j]);
            }
        }
        i = i + 1;
    }
    Ok(capabilities)
}

/// Whether the version of a component is understood, and its normal form.
pub open spec fn is_version_of<P: Fn(&str) -> Option<String>>(
    parse: P,
    version: Option<String>,
    r: Option<Option<Seq<char>>>,
) -> bool {
    match version {
        None => r == Some(None::<Seq<char>>),
        Some(version) => exists|text: &str, parsed: Option<String>|
            text@ == version@ && #[trigger] call_ensures(parse, (text,), parsed) && r
                == match parsed {
                Some(normal) => Some(Some(normal@)),
                None => None,
            },
    }
}

fn version_from<P: Fn(&str) -> Option<String>>(parse: &P, version: &Option<String>) -> (r: Option<
    Option<String>,
>)
    requires
        forall|text: &str| call_requires(*parse, (text,)),
    ensures
        is_version_of(
            *parse,
            *version,
            match r {
                Some(normal) => Some(opt_view(normal)),
                None => None,
            },
        ),
{
    match version {
        None => Some(None),
        Some(version) => {
            let text = version.as_str();
            let parsed = parse(text);
            let ghost outcome = parsed;
            match parsed {
                Some(normal) => {
                    assert(text@ == version@ && call_ensures(*parse, (text,), outcome));
                    Some(Some(normal))
                },
                None => {
                    assert(text@ == version@ && call_ensures(*parse, (text,), outcome));
                    None
                },
            }
        },
    }
}

/// Whether the version of a component is understood.
pub open spec fn is_version<P: Fn(&str) -> Option<String>>(
    parse: P,
    version: Option<String>,
) -> bool {
    exists|normal: Option<Seq<char>>| is_version_of(parse, version, Some(normal))
}

/// Whether this is why a declaration is refused. An unknown field comes first, then the
/// version, then the first refused entry of the provided capabilities, of the requirements
/// and of the conflicts.
pub open spec fn is_refusal<P: Fn(&str) -> Option<String>, Q: Fn(&str) -> Option<String>>(
    declaration: ComponentDeclaration,
    version: P,
    requirement: Q,
    e: DeclarationError,
) -> bool {
    let provides = entries_of(declaration.provides);
    let requirements = entries_of(declaration.requirements);
    let conflicts = entries_of(declaration.conflicts);
    match declaration.unknown_field {
        Some(name) => e matches DeclarationError::UnknownField { field } && field@ == name@,
        None => {
            ||| e == DeclarationError::InvalidVersion && is_version_of(
                version,
                declaration.version,
                None,
            )
            ||| {
                &&& is_version(version, declaration.version)
                &&& are_capabilities_of(version, provides, DeclarationPart::Provides, Err(e))
            }
            ||| {
                &&& is_version(version, declaration.version)
                &&& are_capabilities(version, provides, DeclarationPart::Provides)
                &&& are_capabilities_of(
                    requirement,
                    requirements,
                    DeclarationPart::Requires,
                    Err(e),
                )
            }
            ||| {
                &&& is_version(version, declaration.version)
                &&& are_capabilities(version, provides, DeclarationPart::Provides)
                &&& are_capabilities(requirement, requirements, DeclarationPart::Requires)
                &&& are_capabilities_of(
                    requirement,
                    conflicts,
                    DeclarationPart::Conflicts,
                    Err(e),
                )
            }
        },
    }
}

/// The claims of a declaration.
pub open spec fn claims_of(claims: Option<Vec<String>>) -> Seq<Seq<char>> {
    match claims {
        Some(claims) => views(claims@),
        None => Seq::empty(),
    }
}

/// Convert a declaration into a component. `version` and `requirement` give a version, or a
/// requirement on one, in its normal form, where the text is one.
pub fn component_from_declaration<
    P: Fn(&str) -> Option<String>,
    Q: Fn(&str) -> Option<String>,
>(declaration: &ComponentDeclaration, version: &P, requirement: &Q) -> (r: Result<
    Component,
    DeclarationError,
>)
    requires
        forall|text: &str| call_requires(*version, (text,)),
        forall|text: &str| call_requires(*requirement, (text,)),
    ensures
        r matches Ok(component) ==> {
            &&& declaration.unknown_field is None
            &&& component@.id == declaration.id@
            &&& is_version_of(*version, declaration.version, Some(component@.version))
            &&& are_capabilities_of(
                *version,
                entries_of(declaration.provides),
                DeclarationPart::Provides,
                Ok(component@.provides),
            )
            &&& component@.claims == claims_of(declaration.claims)
            &&& are_capabilities_of(
                *requirement,
                entries_of(declaration.requirements),
                DeclarationPart::Requires,
                Ok(component@.requirements),
            )
            &&& are_capabilities_of(
                *requirement,
                entries_of(declaration.conflicts),
                DeclarationPart::Conflicts,
                Ok(component@.conflicts),
            )
        },
        r matches Err(e) ==> is_refusal(*declaration, *version, *requirement, e),
{
    if let Some(field) = &declaration.unknown_field {
        return Err(DeclarationError::UnknownField { field: field.clone() });
    }
    let normal = match version_from(version, &declaration.version) {
        Some(normal) => normal,
        None => return Err(DeclarationError::InvalidVersion),
    };
    assert(is_version_of(*version, declaration.version, Some(opt_view(normal))));
    let provides = match capabilities_from(
        version,
        &declaration.provides,
        DeclarationPart::Provides,
    ) {
        Ok(provides) => provides,
        Err(e) => return Err(e),
    };
    assert(are_capabilities_of(
        *version,
        entries_of(declaration.provides),
        DeclarationPart::Provides,
        Ok(capability_views(provides@)),
    ));
    let claims = match &declaration.claims {
        Some(claims) => clone_strings(claims),
        None => Vec::new(),
    };
    assert(views(claims@) =~= claims_of(declaration.claims));
    let requirements = match capabilities_from(
        requirement,
        &declaration.requirements,
        DeclarationPart::Requires,
    ) {
        Ok(requirements) => requirements,
        Err(e) => return Err(e),
    };
    assert(are_capabilities_of(
        *requirement,
        entries_of(declaration.requirements),
        DeclarationPart::Requires,
        Ok(capability_views(requirements@)),
    ));
    let conflicts = match capabilities_from(
        requirement,
        &declaration.conflicts,
        DeclarationPart::Conflicts,
    ) {
        Ok(conflicts) => conflicts,
        Err(e) => return Err(e),
    };
    Ok(
        ComponentOf {
            id: declaration.id.clone(),
            version: normal,
            provides,
            claims,
            requirements,
            conflicts,
        },
    )
}

/// A component file is read as JSON where its extension is `json`, however its letters are
/// written, and as TOML where it has another extension or none.
pub proof fn law_extension_decides_on_the_format(path: Seq<char>)
    ensures
        file_format(path) is Json <==> ({
            let found = path_extension(path)->0;
            &&& path_extension(path) is Some
            &&& found.len() == 4
            &&& found[0] == 'j' || found[0] == 'J'
            &&& found[1] == 's' || found[1] == 'S'
            &&& found[2] == 'o' || found[2] == 'O'
            &&& found[3] == 'n' || found[3] == 'N'
        }),
        file_format(path) is Toml <==> !(file_format(path) is Json),
{
    reveal_strlit("json");
    if path_extension(path) is Some {
        let found = path_extension(path)->0;
        let lowered = ascii_lowered(found);
        let json = ascii_lowered("json"@);
        if lowered == json {
            assert(lowered.len() == 4);
            assert(lowered[0] == json[0] && lowered[1] == json[1] && lowered[2] == json[2]
                && lowered[3] == json[3]);
        }
        if found.len() == 4 && lowered[0] == 'j' && lowered[1] == 's' && lowered[2] == 'o'
            && lowered[3] == 'n' {
            assert(lowered =~= json);
        }
    }
}

} // verus!
