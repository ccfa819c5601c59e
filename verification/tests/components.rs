use std::cell::RefCell;
use std::collections::BTreeMap;

use rugix_ctrl::components::bundle::{
    find_component_files, read_bundle_components, validate_bundle_component_path,
    validate_bundle_components, BundleComponentFile, BundleComponentsError, ComponentPathError,
    ComponentWriter, EntryKind, RootEntry, WriteAction, WriteEvent,
};
use rugix_ctrl::components::format::{
    component_file_format, component_from_declaration, CapabilityDeclaration,
    ComponentDeclaration, DeclarationError, DeclarationPart, FileFormat,
};
use rugix_ctrl::components::installed::{
    active_app_root, standard_roots, CheckReport, InstalledComponents, LoadedComponent, Problem,
    ProblemOutput, RootFiles,
};
use rugix_ctrl::components::{
    rugix_ctrl_capability, synthetic_host_component, Capability, CapabilitySelector, Component,
    ComponentLocation, ComponentSourceKind,
};

/// The version texts that are accepted here: numbers separated by dots.
fn parse_version(text: &str) -> Option<String> {
    if text.split('.').all(|part| part.parse::<u64>().is_ok()) {
        Some(text.to_owned())
    } else {
        None
    }
}

fn parse_requirement(text: &str) -> Option<String> {
    parse_version(text.trim_start_matches(">=")).map(|_| text.to_owned())
}

fn field(table: &toml::Table, name: &str) -> Option<String> {
    table
        .get(name)
        .map(|value| value.as_str().unwrap().to_owned())
}

fn unknown(table: &toml::Table, known: &[&str]) -> Option<String> {
    table
        .keys()
        .find(|key| !known.contains(&key.as_str()))
        .cloned()
}

fn tables(table: &toml::Table, name: &str) -> Option<Vec<toml::Table>> {
    table.get(name).map(|value| {
        value
            .as_array()
            .unwrap()
            .iter()
            .map(|entry| entry.as_table().unwrap().clone())
            .collect()
    })
}

fn capabilities(table: &toml::Table, name: &str) -> Option<Vec<CapabilityDeclaration>> {
    tables(table, name).map(|entries| {
        entries
            .iter()
            .map(|entry| CapabilityDeclaration {
                id: field(entry, "id").unwrap(),
                version: field(entry, "version"),
                value: field(entry, "value"),
            })
            .collect()
    })
}

fn declaration(table: &toml::Table) -> ComponentDeclaration {
    let parts = ["provides", "claims", "requires", "conflicts"];
    let mut unknown_field = unknown(
        table,
        &["id", "version", "provides", "claims", "requires", "conflicts"],
    );
    for part in parts {
        for entry in tables(table, part).unwrap_or_default() {
            unknown_field = unknown_field.or(unknown(&entry, &["id", "version", "value"]));
        }
    }
    ComponentDeclaration {
        id: field(table, "id").unwrap(),
        version: field(table, "version"),
        provides: capabilities(table, "provides"),
        claims: tables(table, "claims").map(|entries| {
            entries
                .iter()
                .map(|entry| field(entry, "id").unwrap())
                .collect()
        }),
        requirements: capabilities(table, "requires"),
        conflicts: capabilities(table, "conflicts"),
        unknown_field,
    }
}

fn parse_table(path: &str, content: &str) -> toml::Table {
    match component_file_format(path) {
        FileFormat::Toml => content.parse().unwrap(),
        FileFormat::Json => serde_json::from_str(content).unwrap(),
    }
}

fn parse_component(path: &str, content: &str) -> Result<Component, DeclarationError> {
    component_from_declaration(
        &declaration(&parse_table(path, content)),
        &parse_version,
        &parse_requirement,
    )
}

#[test]
fn parses_complete_toml_component_declaration() {
    let component = parse_component(
        "component.toml",
        r#"
id = "app.web"
version = "1.2.3"

[[provides]]
id = "service.http"
version = "2.0"

[[claims]]
id = "network.tcp.8080"

[[requires]]
id = "host.arch"
value = "aarch64"

[[conflicts]]
id = "app.legacy"
"#,
    )
    .unwrap();

    assert_eq!(component.id, "app.web");
    assert_eq!(component.version.as_deref(), Some("1.2.3"));
    assert_eq!(component.provides[0].id, "service.http");
    assert_eq!(component.claims[0], "network.tcp.8080");
    assert_eq!(component.requirements[0].value.as_deref(), Some("aarch64"));
    assert_eq!(component.conflicts[0].id, "app.legacy");
}

#[test]
fn parses_json_component_declaration() {
    let component = parse_component(
        "component.json",
        r#"{
            "id": "app.web",
            "provides": [{"id": "service.http", "value": "enabled"}]
        }"#,
    )
    .unwrap();

    assert_eq!(component.id, "app.web");
    assert_eq!(component.provides[0].id, "service.http");
    assert_eq!(component.provides[0].value.as_deref(), Some("enabled"));
}

#[test]
fn rejects_unknown_component_fields() {
    let content = r#"
id = "app.web"
versoin = "1.2.3"
"#;
    let error = parse_component("component.toml", content).unwrap_err();

    assert!(error
        .message()
        .contains("component declaration contains an unknown field"));
    assert!(error.message().contains("versoin"));
    assert_eq!(
        error,
        DeclarationError::UnknownField {
            field: "versoin".to_owned()
        }
    );
}

#[test]
fn rejects_unknown_nested_component_fields() {
    let content = r#"{
        "id": "app.web",
        "provides": [{"id": "service.http", "vale": "enabled"}]
    }"#;
    let error = parse_component("component.json", content).unwrap_err();

    assert!(error
        .message()
        .contains("component declaration contains an unknown field"));
    assert!(error.message().contains("vale"));
}

#[test]
fn rejects_capability_with_version_and_value() {
    let error = parse_component(
        "component.toml",
        r#"
id = "app.web"

[[provides]]
id = "service.http"
version = "2.0"
value = "enabled"
"#,
    )
    .unwrap_err();

    assert!(error
        .message()
        .contains("capability must not declare both a version and a value"));
}

#[test]
fn rejects_selector_with_version_and_value() {
    let error = parse_component(
        "component.toml",
        r#"
id = "app.web"

[[requires]]
id = "service.http"
version = ">=2"
value = "enabled"
"#,
    )
    .unwrap_err();

    assert!(error
        .message()
        .contains("capability selector must not declare both a version and a value"));
}

#[test]
fn rejects_versions_that_cannot_be_parsed() {
    assert_eq!(
        parse_component("c.toml", "id = \"a\"\nversion = \"one\"\n").unwrap_err(),
        DeclarationError::InvalidVersion
    );
    assert_eq!(
        parse_component(
            "c.toml",
            "id = \"a\"\n[[provides]]\nid = \"x\"\n[[provides]]\nid = \"s\"\nversion = \"one\"\n"
        )
        .unwrap_err(),
        DeclarationError::InvalidCapabilityVersion {
            part: DeclarationPart::Provides,
            index: 1
        }
    );
}

#[test]
fn the_first_refused_part_is_reported() {
    let conflict = "[[conflicts]]\nid = \"c\"\nversion = \"1\"\nvalue = \"x\"\n";
    let requirement = "[[requires]]\nid = \"r\"\nversion = \"1\"\nvalue = \"x\"\n";
    let provided = "[[provides]]\nid = \"p\"\nversion = \"one\"\n";
    let refused = |content: &str| parse_component("c.toml", content).unwrap_err();
    assert_eq!(
        refused(&format!("id = \"a\"\n{conflict}{requirement}{provided}")),
        DeclarationError::InvalidCapabilityVersion {
            part: DeclarationPart::Provides,
            index: 0
        }
    );
    assert_eq!(
        refused(&format!("id = \"a\"\n{conflict}{requirement}")),
        DeclarationError::VersionAndValue {
            part: DeclarationPart::Requires,
            index: 0
        }
    );
    assert_eq!(
        refused(&format!("id = \"a\"\nversion = \"one\"\n{conflict}")),
        DeclarationError::InvalidVersion
    );
}

fn location(kind: ComponentSourceKind, path: &str) -> ComponentLocation {
    ComponentLocation {
        kind,
        path: path.to_owned(),
        app: None,
        generation: None,
    }
}

fn app_location(app: &str) -> ComponentLocation {
    ComponentLocation {
        kind: ComponentSourceKind::App,
        path: format!("/data/apps/{app}/generations/1/.rugix/components/app.toml"),
        app: Some(app.to_owned()),
        generation: Some(1),
    }
}

fn loaded(source: ComponentLocation, component: Component) -> LoadedComponent {
    LoadedComponent { source, component }
}

fn installed(components: Vec<LoadedComponent>) -> InstalledComponents {
    InstalledComponents {
        roots: Vec::new(),
        components,
    }
}

fn two_apps() -> InstalledComponents {
    installed(vec![
        loaded(app_location("foo"), Component::new("app.foo")),
        loaded(app_location("bar"), Component::new("app.bar")),
    ])
}

/// Finds components, claims and capabilities that get in each other's way.
fn check(set: &InstalledComponents) -> CheckReport {
    let mut problems = Vec::new();
    let mut ids: BTreeMap<&str, usize> = BTreeMap::new();
    let mut claims: BTreeMap<&str, Vec<String>> = BTreeMap::new();
    for loaded in &set.components {
        *ids.entry(loaded.component.id.as_str()).or_default() += 1;
        for claim in &loaded.component.claims {
            claims
                .entry(claim.as_str())
                .or_default()
                .push(loaded.component.id.clone());
        }
    }
    for (id, count) in ids {
        if count > 1 {
            problems.push(Problem::DuplicateComponent { id: id.to_owned() });
        }
    }
    for (id, components) in claims {
        if components.len() > 1 {
            problems.push(Problem::DuplicateClaim {
                id: id.to_owned(),
                components,
            });
        }
    }
    for loaded in &set.components {
        for selector in &loaded.component.conflicts {
            for provider in &set.components {
                for capability in &provider.component.provides {
                    if capability.id == selector.id {
                        problems.push(Problem::Conflict {
                            component: loaded.component.id.clone(),
                            selector: selector.copy(),
                            provider: provider.component.id.clone(),
                            capability: capability.copy(),
                        });
                    }
                }
            }
        }
    }
    CheckReport {
        consistent: problems.is_empty(),
        problems,
    }
}

fn ids(components: &[LoadedComponent]) -> Vec<&str> {
    components
        .iter()
        .map(|component| component.component.id.as_str())
        .collect()
}

#[test]
fn loads_components_recursively_in_path_order() {
    let entries = vec![
        RootEntry {
            path: "/components/z.toml".to_owned(),
            regular: true,
        },
        RootEntry {
            path: "/components/nested".to_owned(),
            regular: false,
        },
        RootEntry {
            path: "/components/nested/a.toml".to_owned(),
            regular: true,
        },
    ];
    let files: Vec<(String, Component)> = find_component_files(&entries)
        .into_iter()
        .map(|path| {
            let content = if path.ends_with("z.toml") {
                "id = \"component.z\"\nversion = \"1.0.0\"\n"
            } else {
                "id = \"component.a\"\n"
            };
            let component = parse_component(&path, content).unwrap();
            (path, component)
        })
        .collect();
    let mut components = installed(Vec::new());
    components.load_root(
        ComponentLocation::new(ComponentSourceKind::Local, "/components"),
        files,
    );
    assert_eq!(ids(&components.components), ["component.a", "component.z"]);
}

#[test]
fn loads_component_claims_from_metadata() {
    let component = parse_component(
        "/components/app.toml",
        r#"
id = "app.web"

[[claims]]
id = "network.tcp.8080"
"#,
    )
    .unwrap();
    let mut components = installed(Vec::new());
    components.load_root(
        ComponentLocation::new(ComponentSourceKind::Local, "/components"),
        vec![("/components/app.toml".to_owned(), component)],
    );
    assert_eq!(
        components.components[0].component.claims[0],
        "network.tcp.8080"
    );
    assert_eq!(components.roots.len(), 1);
    assert_eq!(
        components.components[0].source.path,
        "/components/app.toml"
    );
}

#[test]
fn reports_duplicate_component_sources() {
    let components = installed(vec![
        loaded(
            location(ComponentSourceKind::Local, "/etc/rugix/components/a.toml"),
            Component::new("component.duplicate"),
        ),
        loaded(
            location(ComponentSourceKind::Runtime, "/run/rugix/components/b.toml"),
            Component::new("component.duplicate"),
        ),
    ]);

    let output = components.check_output(check);
    assert!(!output.consistent);
    assert_eq!(output.problems.len(), 1);
    let ProblemOutput::DuplicateComponent { id, sources } = &output.problems[0] else {
        panic!("expected duplicate component problem");
    };
    assert_eq!(id, "component.duplicate");
    assert_eq!(sources.len(), 2);
}

#[test]
fn reports_conflict_participants_as_component_refs() {
    let components = installed(vec![
        loaded(
            location(
                ComponentSourceKind::Local,
                "/etc/rugix/components/provider.toml",
            ),
            Component::new("component.provider")
                .with_provided_capability(Capability::new("service.modbus")),
        ),
        loaded(
            location(
                ComponentSourceKind::Runtime,
                "/run/rugix/components/consumer.toml",
            ),
            Component::new("component.consumer")
                .with_conflict(CapabilitySelector::new("service.modbus")),
        ),
    ]);

    let output = components.check_output(check);
    assert!(!output.consistent);
    assert_eq!(output.problems.len(), 1);
    let ProblemOutput::Conflict {
        component,
        provider,
        ..
    } = &output.problems[0]
    else {
        panic!("expected conflict problem");
    };
    assert_eq!(component.id, "component.consumer");
    assert_eq!(
        component.source.as_ref().map(|source| source.path.as_str()),
        Some("/run/rugix/components/consumer.toml")
    );
    assert_eq!(provider.id, "component.provider");
    assert_eq!(
        provider.source.as_ref().map(|source| source.path.as_str()),
        Some("/etc/rugix/components/provider.toml")
    );
}

#[test]
fn reports_duplicate_claim_participants_as_component_refs() {
    let components = installed(vec![
        loaded(
            location(
                ComponentSourceKind::Local,
                "/etc/rugix/components/first.toml",
            ),
            Component::new("component.first").with_claim("network.tcp.8080"),
        ),
        loaded(
            location(
                ComponentSourceKind::Runtime,
                "/run/rugix/components/second.toml",
            ),
            Component::new("component.second").with_claim("network.tcp.8080"),
        ),
    ]);

    let output = components.check_output(check);
    assert!(!output.consistent);
    assert_eq!(output.problems.len(), 1);
    let ProblemOutput::DuplicateClaim { id, components } = &output.problems[0] else {
        panic!("expected duplicate claim problem");
    };
    assert_eq!(id, "network.tcp.8080");
    assert_eq!(
        components
            .iter()
            .map(|component| component.id.as_str())
            .collect::<Vec<_>>(),
        ["component.first", "component.second"]
    );
    assert_eq!(
        components[0]
            .source
            .as_ref()
            .map(|source| source.path.as_str()),
        Some("/etc/rugix/components/first.toml")
    );
    assert_eq!(
        components[1]
            .source
            .as_ref()
            .map(|source| source.path.as_str()),
        Some("/run/rugix/components/second.toml")
    );
}

fn bundle_components(files: &[(&str, &str)]) -> Vec<BundleComponentFile> {
    files
        .iter()
        .map(|(path, data)| BundleComponentFile {
            path: (*path).to_owned(),
            data: data.as_bytes().to_vec(),
            component: parse_component(path, data).map_err(|error| error.message()),
        })
        .collect()
}

#[test]
fn system_update_candidate_replaces_system_components() {
    let components = InstalledComponents {
        roots: vec![ComponentLocation::new(
            ComponentSourceKind::System,
            "/usr/lib/rugix/components",
        )],
        components: vec![loaded(
            location(
                ComponentSourceKind::System,
                "/usr/lib/rugix/components/os.toml",
            ),
            Component::new("system.os"),
        )],
    };

    let output = components
        .check_system_update(
            &bundle_components(&[(
                "os.toml",
                r#"
id = "system.os"
version = "2.0.0"
"#,
            )]),
            check,
        )
        .unwrap();

    assert!(output.consistent);
    assert_eq!(output.components.len(), 1);
    assert_eq!(output.components[0].component.id, "system.os");
    assert!(matches!(
        output.components[0].source.kind,
        ComponentSourceKind::Bundle
    ));
}

#[test]
fn incremental_update_candidate_replaces_declared_component_ids() {
    let components = installed(vec![
        loaded(
            location(
                ComponentSourceKind::System,
                "/usr/lib/rugix/components/runtime.toml",
            ),
            Component::new("runtime.container"),
        ),
        loaded(app_location("foo"), Component::new("app.foo")),
    ]);

    let output = components
        .check_incremental_update(
            &bundle_components(&[(
                "runtime.toml",
                r#"
id = "runtime.container"
version = "2.0.0"
"#,
            )]),
            check,
        )
        .unwrap();

    assert!(output.consistent);
    assert_eq!(ids(&output.components), ["app.foo", "runtime.container"]);
    assert!(matches!(
        output.components[1].source.kind,
        ComponentSourceKind::Bundle
    ));
}

#[test]
fn app_update_candidate_replaces_touched_app_components() {
    let output = two_apps()
        .check_app_update(
            vec!["foo".to_owned()],
            Some(&bundle_components(&[(
                "app.toml",
                r#"
id = "app.foo"
version = "2.0.0"
"#,
            )])),
            check,
        )
        .unwrap();

    assert!(output.consistent);
    assert_eq!(ids(&output.components), ["app.bar", "app.foo"]);
    assert!(matches!(
        output.components[1].source.kind,
        ComponentSourceKind::Bundle
    ));
}

#[test]
fn app_update_without_bundle_components_removes_touched_app_components() {
    let output = two_apps()
        .check_app_update(vec!["foo".to_owned()], None, check)
        .unwrap();

    assert!(output.consistent);
    assert_eq!(output.components.len(), 1);
    assert_eq!(output.components[0].component.id, "app.bar");
}

#[test]
fn app_removal_candidate_removes_active_app_components() {
    let output = two_apps().check_app_removal("foo".to_owned(), check);

    assert!(output.consistent);
    assert_eq!(output.components.len(), 1);
    assert_eq!(output.components[0].component.id, "app.bar");
}

#[test]
fn app_generation_candidate_replaces_active_app_components() {
    let root = "/data/apps/foo/generations/2/.rugix/components";
    let path = format!("{root}/app.toml");
    let component = parse_component(
        &path,
        r#"
id = "app.foo"
version = "2.0.0"
"#,
    )
    .unwrap();

    let output =
        two_apps().check_app_generation("foo".to_owned(), 2, root, vec![(path, component)], check);

    assert!(output.consistent);
    assert_eq!(ids(&output.components), ["app.bar", "app.foo"]);
    assert!(matches!(
        output.components[1].source.kind,
        ComponentSourceKind::App
    ));
    assert_eq!(output.components[1].source.generation, Some(2));
}

#[test]
fn synthetic_host_component_provides_basic_host_facts() {
    let component =
        synthetic_host_component("aarch64", rugix_ctrl_capability("1.2.3", parse_version));
    assert_eq!(component.id, "rugix.host");
    assert!(component.provides.iter().any(|capability| {
        capability.id == "host.arch" && capability.value.as_deref() == Some("aarch64")
    }));
    assert!(component.provides.iter().any(|capability| {
        capability.id == "rugix.ctrl"
            && (capability.version.is_some() || capability.value.is_some())
    }));
}

#[test]
fn rugix_ctrl_capability_prefers_parseable_versions() {
    let capability = rugix_ctrl_capability("1.2.3", parse_version);
    assert_eq!(capability.id, "rugix.ctrl");
    assert_eq!(capability.version.as_deref(), Some("1.2.3"));
    assert_eq!(capability.value, None);
}

#[test]
fn rugix_ctrl_capability_strips_tag_version_prefix() {
    let capability = rugix_ctrl_capability("v1.2.3", parse_version);
    assert_eq!(capability.id, "rugix.ctrl");
    assert_eq!(capability.version.as_deref(), Some("1.2.3"));
    assert_eq!(capability.value, None);
}

#[test]
fn rugix_ctrl_capability_falls_back_to_value_for_unparseable_versions() {
    let capability = rugix_ctrl_capability("unknown", parse_version);
    assert_eq!(capability.id, "rugix.ctrl");
    assert_eq!(capability.version, None);
    assert_eq!(capability.value.as_deref(), Some("unknown"));
}

#[test]
fn synthetic_components_are_reported_with_synthetic_source() {
    let mut components = installed(Vec::new());
    components.load_synthetic_components(synthetic_host_component(
        "x86_64",
        rugix_ctrl_capability("1.0.0", parse_version),
    ));

    let output = components.output();
    assert_eq!(output.roots.len(), 1);
    assert!(matches!(
        output.roots[0].kind,
        ComponentSourceKind::Synthetic
    ));
    assert_eq!(output.components.len(), 1);
    assert!(matches!(
        output.components[0].source.kind,
        ComponentSourceKind::Synthetic
    ));
}

/// What a directory tree holds: directories, links and files with their contents.
#[derive(Debug, Clone, PartialEq)]
enum Node {
    Directory,
    /// A link to a directory.
    Link(String),
    File(Vec<u8>),
}

/// Writes components below `.rugix/components`, in a tree of the given nodes.
fn write_bundle_components(
    files: &Vec<BundleComponentFile>,
    tree: &RefCell<BTreeMap<String, Node>>,
) -> Result<(), BundleComponentsError> {
    let parent = ".rugix";
    let root = ".rugix/components";
    let at = |path: &str| match (tree.borrow().get(parent), path.strip_prefix(".rugix/")) {
        (Some(Node::Link(target)), Some(rest)) => format!("{target}/{rest}"),
        _ => path.to_owned(),
    };
    let kind = |path: &str| match tree.borrow().get(&at(path)) {
        None => EntryKind::Nothing,
        Some(Node::Directory) => EntryKind::Directory,
        Some(_) => EntryKind::Other,
    };
    let remove = |path: &str| {
        let path = at(path);
        let below = format!("{path}/");
        tree.borrow_mut()
            .retain(|key, _| *key != path && !key.starts_with(&below));
    };
    let create = |path: &str| {
        let path = at(path);
        tree.borrow_mut().entry(path).or_insert(Node::Directory);
    };
    let (mut writer, mut action) = ComponentWriter::write_bundle_components(files)?;
    loop {
        let event = match action {
            WriteAction::ProbeParent => WriteEvent::Found(kind(parent)),
            WriteAction::RemoveParent => {
                remove(parent);
                WriteEvent::Done
            }
            WriteAction::CreateParent => {
                create(parent);
                WriteEvent::Done
            }
            WriteAction::ProbeRoot => WriteEvent::Found(kind(root)),
            WriteAction::RemoveRootTree | WriteAction::RemoveRootFile => {
                remove(root);
                WriteEvent::Done
            }
            WriteAction::CreateRoot => {
                create(root);
                WriteEvent::Done
            }
            WriteAction::CreateFileParent { file } => {
                let path = format!("{root}/{}", files[file].path);
                let directory = path.rsplit_once('/').unwrap().0.to_owned();
                create(&directory);
                WriteEvent::Done
            }
            WriteAction::WriteFile { file } => {
                let path = at(&format!("{root}/{}", files[file].path));
                tree.borrow_mut()
                    .insert(path, Node::File(files[file].data.clone()));
                WriteEvent::Done
            }
            WriteAction::Done => return Ok(()),
            WriteAction::Fail => panic!("no action fails"),
        };
        action = writer.next(event);
    }
}

#[test]
fn writes_bundle_components_to_component_root() {
    let tree = RefCell::new(BTreeMap::new());
    write_bundle_components(
        &bundle_components(&[("nested/app.toml", "id = \"app.foo\"\n")]),
        &tree,
    )
    .unwrap();
    assert_eq!(
        tree.borrow().get(".rugix/components/nested/app.toml"),
        Some(&Node::File(b"id = \"app.foo\"\n".to_vec()))
    );
}

#[test]
fn rejects_duplicate_bundle_component_paths_when_writing() {
    let tree = RefCell::new(BTreeMap::new());
    let error = write_bundle_components(
        &bundle_components(&[
            ("app.toml", "id = \"app.foo\"\n"),
            ("app.toml", "id = \"app.bar\"\n"),
        ]),
        &tree,
    )
    .unwrap_err();
    assert!(error.message().contains("duplicate bundle component"));
}

#[test]
fn failed_bundle_component_validation_does_not_remove_existing_root() {
    let existing = Node::File(b"id = \"existing\"\n".to_vec());
    let tree = RefCell::new(BTreeMap::from([
        (".rugix".to_owned(), Node::Directory),
        (".rugix/components".to_owned(), Node::Directory),
        (
            ".rugix/components/existing.toml".to_owned(),
            existing.clone(),
        ),
    ]));
    let error = write_bundle_components(
        &bundle_components(&[("../invalid.toml", "id = \"invalid\"\n")]),
        &tree,
    )
    .unwrap_err();

    assert!(error.message().contains("invalid bundle component path"));
    assert_eq!(
        tree.borrow().get(".rugix/components/existing.toml"),
        Some(&existing)
    );
}

#[test]
fn bundle_component_writer_replaces_symlinked_parent_directory() {
    let outside = Node::File(b"id = \"outside\"\n".to_vec());
    let tree = RefCell::new(BTreeMap::from([
        (".rugix".to_owned(), Node::Link("outside".to_owned())),
        ("outside".to_owned(), Node::Directory),
        ("outside/components".to_owned(), Node::Directory),
        ("outside/components/outside.toml".to_owned(), outside.clone()),
    ]));
    write_bundle_components(
        &bundle_components(&[("app.toml", "id = \"app.foo\"\n")]),
        &tree,
    )
    .unwrap();

    assert_eq!(tree.borrow().get(".rugix"), Some(&Node::Directory));
    assert_eq!(
        tree.borrow().get(".rugix/components/app.toml"),
        Some(&Node::File(b"id = \"app.foo\"\n".to_vec()))
    );
    assert_eq!(
        tree.borrow().get("outside/components/outside.toml"),
        Some(&outside)
    );
}

#[test]
fn bundle_component_paths_are_refused_for_a_reason() {
    assert_eq!(
        validate_bundle_component_path("/app.toml"),
        Err(ComponentPathError::Absolute)
    );
    assert_eq!(
        validate_bundle_component_path("../app.toml"),
        Err(ComponentPathError::Invalid)
    );
    assert_eq!(
        validate_bundle_component_path(""),
        Err(ComponentPathError::Invalid)
    );
    assert_eq!(
        validate_bundle_component_path("app.txt"),
        Err(ComponentPathError::UnsupportedExtension)
    );
    assert_eq!(validate_bundle_component_path("nested/./app.TOML"), Ok(()));
    let unreadable = validate_bundle_components(&bundle_components(&[(
        "app.toml",
        "id = \"a\"\nother = \"x\"\n",
    )]))
    .unwrap_err();
    assert!(matches!(
        unreadable,
        BundleComponentsError::Unreadable { file: 0, .. }
    ));
    assert!(unreadable.message().contains("other"));
}

#[test]
fn bundle_components_are_read_in_path_order() {
    let read = read_bundle_components(&bundle_components(&[
        ("z.toml", "id = \"z\"\n"),
        ("a.toml", "id = \"a\"\n"),
    ]))
    .unwrap();
    let paths: Vec<&str> = read.iter().map(|(path, _)| path.as_str()).collect();
    assert_eq!(paths, ["a.toml", "z.toml"]);
}

#[test]
fn installed_components_come_from_their_roots() {
    let roots = standard_roots();
    assert!(roots.iter().any(|root| root.path == "/etc/rugix/components"
        && matches!(root.kind, ComponentSourceKind::Local)));
    let app = active_app_root("foo", Some(3), "/apps/foo/generations/3").unwrap();
    assert_eq!(app.path, "/apps/foo/generations/3/.rugix/components");
    assert_eq!(app.generation, Some(3));
    assert!(active_app_root("foo", None, "/apps/foo/generations/3").is_none());

    let loaded = InstalledComponents::load(
        vec![RootFiles {
            location: app,
            files: vec![(
                "/apps/foo/generations/3/.rugix/components/app.toml".to_owned(),
                Component::new("app.foo"),
            )],
        }],
        Component::new("rugix.host"),
    );
    assert_eq!(ids(&loaded.components), ["app.foo", "rugix.host"]);
    assert_eq!(
        ids(&loaded.output_for_component("app.foo").unwrap().components),
        ["app.foo"]
    );
    assert!(loaded.output_for_component("app.bar").is_none());
}

#[test]
fn requirements_accumulate() {
    let component = rugix_ctrl::components::Component::new("app")
        .with_requirement(rugix_ctrl::components::Capability::versioned("abi", "^1"))
        .with_requirement(rugix_ctrl::components::Capability::new("display"));
    let ids: Vec<&str> = component
        .requirements
        .iter()
        .map(|selector| selector.id.as_str())
        .collect();
    assert_eq!(ids, vec!["abi", "display"]);
    assert_eq!(component.requirements[0].version, Some("^1".to_owned()));
}
