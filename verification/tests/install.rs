use std::cell::{Cell, RefCell};

use rugix_ctrl::config::{CompatibilityConfig, Config, SignaturesConfig};
use rugix_ctrl::digest::{HashAlgorithm, HashDigest, HashWriter};
use rugix_ctrl::http_source::RetryConfig;
use rugix_ctrl::operations::install::app_bundle::{
    app_bundle_components_owner, touched_apps, validate_app_deliveries, AppBundleError,
    AppPayloadDelivery,
};
use rugix_ctrl::operations::install::apps::{
    find_delta_candidate, AppAction, AppEvent, AppInstall, AppInstallError, AppInstallRequest,
    AppPayloadFacts, AppPayloadKind, AppRollback, DeltaCandidate,
};
use rugix_ctrl::operations::install::archive::{
    validate_app_archive, validate_archive_entries, ArchiveEntry, ArchiveError, ArchiveText,
};
use rugix_ctrl::operations::install::bundle::{
    choose_source, command_signature_root, configured_signature_roots,
    enforce_bundle_component_policy, locate_bundle, require_update_target,
    requires_bundle_components, select_boot_group, verify_bundle_signature, verify_by_root,
    BundleInput, BundleKind, BundleLocation, BundleRun, BundleRunAction, BundleRunError,
    BundleRunEvent, BundleRunRequest, InstallSource, InstallTarget, SelectError, SignatureCheck,
    SignatureRoot, SourceError, SourcePlan,
};
use rugix_ctrl::operations::install::preflight::{
    preflight_system_deliveries, PayloadDelivery, PreflightError, SystemPayloadDestination,
};
use rugix_ctrl::operations::install::stages::{
    clear_target_overlay_with, finalize_payload_and_record, prepare_system_update, RemoveError,
};
use rugix_ctrl::operations::install::system::{
    find_delta_source, list_block_sources, DeltaEncoding, InstallFlow, PayloadFacts, SkipReason,
    SlotState, SystemAction, SystemEvent, SystemInstall, SystemInstallError, SystemInstallRequest,
    SystemRebootMode,
};
use rugix_ctrl::operations::install::transaction::{
    run_app_activation_transaction, AppActivationPlan,
};
use rugix_ctrl::system::boot_groups::{BootGroup, BootGroups};
use rugix_ctrl::system::slots::{Slot, SlotKind, SystemSlots};

fn no_delivery() -> PayloadDelivery {
    PayloadDelivery {
        slot: None,
        execute: false,
        app_file: false,
        app_archive: false,
    }
}

fn slot_delivery(slot: &str) -> PayloadDelivery {
    PayloadDelivery {
        slot: Some(slot.to_owned()),
        ..no_delivery()
    }
}

fn execute_delivery() -> PayloadDelivery {
    PayloadDelivery {
        execute: true,
        ..no_delivery()
    }
}

fn file_slots(names: &[&str]) -> SystemSlots {
    SystemSlots {
        slots: names
            .iter()
            .map(|name| Slot {
                name: (*name).to_owned(),
                kind: SlotKind::File {
                    path: format!("/tmp/{name}"),
                },
                active: false,
                immutable: true,
            })
            .collect(),
    }
}

fn group(name: &str, slots: Vec<(&str, usize)>) -> BootGroup {
    BootGroup {
        name: name.to_owned(),
        slots: slots
            .into_iter()
            .map(|(alias, slot)| (alias.to_owned(), slot))
            .collect(),
        active: false,
    }
}

fn aliases_are_resolved() {
    let slots = file_slots(&["system-a", "system-b"]);
    let group = group("b", vec![("system", 1)]);
    let target_idx = slots.find_by_name("system-b").unwrap();
    assert_eq!(
        preflight_system_deliveries(false, &vec![slot_delivery("system")], &slots, Some(&group))
            .unwrap(),
        vec![SystemPayloadDestination::Slot(target_idx)]
    );
}

#[test]
fn cli_preflight_resolves_group_aliases_before_installation() {
    aliases_are_resolved();
}

#[test]
fn system_preflight_resolves_group_aliases_before_installation() {
    aliases_are_resolved();
}

fn destinations_are_checked() {
    let slots = file_slots(&["target"]);
    assert_eq!(
        preflight_system_deliveries(true, &vec![slot_delivery("missing")], &slots, None)
            .unwrap_err(),
        PreflightError::UnknownSlot { payload: 0 }
    );

    let mut slots = file_slots(&["target"]);
    slots.slots[0].active = true;
    assert_eq!(
        preflight_system_deliveries(true, &vec![slot_delivery("target")], &slots, None)
            .unwrap_err(),
        PreflightError::ActiveSlot {
            payload: 0,
            slot: 0
        }
    );

    let slots = file_slots(&["target"]);
    assert_eq!(
        preflight_system_deliveries(
            true,
            &vec![slot_delivery("target"), slot_delivery("target")],
            &slots,
            None
        )
        .unwrap_err(),
        PreflightError::DuplicateSlot {
            payload: 1,
            slot: 0
        }
    );
}

#[test]
fn cli_preflight_rejects_unknown_active_and_duplicate_destinations() {
    destinations_are_checked();
}

#[test]
fn system_preflight_rejects_unknown_active_and_duplicate_destinations() {
    destinations_are_checked();
}

fn one_delivery_type_is_required() {
    let slots = file_slots(&["target"]);
    assert_eq!(
        preflight_system_deliveries(true, &vec![no_delivery()], &slots, None).unwrap_err(),
        PreflightError::DeliveryTypes {
            payload: 0,
            count: 0
        }
    );

    let mut ambiguous = slot_delivery("target");
    ambiguous.execute = true;
    assert_eq!(
        preflight_system_deliveries(true, &vec![ambiguous], &slots, None).unwrap_err(),
        PreflightError::DeliveryTypes {
            payload: 0,
            count: 2
        }
    );
}

#[test]
fn cli_preflight_requires_one_supported_delivery_type() {
    one_delivery_type_is_required();
}

#[test]
fn system_preflight_requires_one_supported_delivery_type() {
    one_delivery_type_is_required();
}

fn unavailable_slots_are_rejected() {
    let slots = SystemSlots {
        slots: vec![Slot {
            name: "optional".to_owned(),
            kind: SlotKind::Block { device: None },
            active: false,
            immutable: true,
        }],
    };
    assert_eq!(
        preflight_system_deliveries(true, &vec![slot_delivery("optional")], &slots, None)
            .unwrap_err(),
        PreflightError::UnavailableSlot {
            payload: 0,
            slot: 0
        }
    );
}

#[test]
fn cli_preflight_rejects_unavailable_optional_block_slots() {
    unavailable_slots_are_rejected();
}

#[test]
fn system_preflight_rejects_unavailable_optional_block_slots() {
    unavailable_slots_are_rejected();
}

fn inapplicable_bundles_are_rejected() {
    let slots = file_slots(&["target"]);
    let app_delivery = PayloadDelivery {
        app_archive: true,
        ..no_delivery()
    };
    assert_eq!(
        preflight_system_deliveries(true, &vec![app_delivery], &slots, None).unwrap_err(),
        PreflightError::AppPayload { payload: 0 }
    );
    assert_eq!(
        preflight_system_deliveries(true, &vec![], &slots, None).unwrap_err(),
        PreflightError::NoPayloads
    );

    let group = group("target", vec![]);
    assert_eq!(
        preflight_system_deliveries(false, &vec![execute_delivery()], &slots, Some(&group))
            .unwrap_err(),
        PreflightError::NoSlotPayload
    );
    assert_eq!(
        preflight_system_deliveries(false, &vec![slot_delivery("target")], &slots, None)
            .unwrap_err(),
        PreflightError::MissingBootGroup
    );
}

#[test]
fn cli_preflight_rejects_app_only_empty_and_inapplicable_full_bundles() {
    inapplicable_bundles_are_rejected();
}

#[test]
fn system_preflight_rejects_app_only_empty_and_inapplicable_full_bundles() {
    inapplicable_bundles_are_rejected();
}

#[test]
fn incremental_updates_may_only_execute() {
    let slots = file_slots(&[]);
    assert_eq!(
        preflight_system_deliveries(true, &vec![execute_delivery()], &slots, None).unwrap(),
        vec![SystemPayloadDestination::Execute]
    );
}

fn only_missing_overlays_are_ignored() {
    let path = "/test/overlay";
    assert!(clear_target_overlay_with(path, |_| Err(RemoveError::NotFound)).is_ok());
    assert!(clear_target_overlay_with(path, |_| Err(RemoveError::Other)).is_err());
    assert!(clear_target_overlay_with(path, |found| {
        assert_eq!(found, "/test/overlay");
        Ok(())
    })
    .is_ok());
}

#[test]
fn cli_overlay_cleanup_ignores_only_missing_directories() {
    only_missing_overlays_are_ignored();
}

#[test]
fn system_overlay_cleanup_ignores_only_missing_directories() {
    only_missing_overlays_are_ignored();
}

fn short_writes_are_accounted_for() {
    let writer = HashWriter::new(HashAlgorithm::Sha256);
    let buffer = b"four";
    let written = buffer.len().min(2);
    assert_eq!(written, 2);
    let (digest, size) = writer.write(buffer, written).finalize();
    assert_eq!(size, 2);
    assert!(digest.equals(&HashDigest::of(HashAlgorithm::Sha256, b"fo")));
}

#[test]
fn cli_hash_writer_accounts_only_for_bytes_actually_written() {
    short_writes_are_accounted_for();
}

#[test]
fn mod_hash_writer_accounts_only_for_bytes_actually_written() {
    short_writes_are_accounted_for();
}

fn app_file(app: &str, path: &str) -> AppPayloadDelivery {
    AppPayloadDelivery {
        app_file: Some((app.to_owned(), path.to_owned())),
        app_archive: None,
        slot: false,
        execute: false,
    }
}

fn app_archive(app: &str) -> AppPayloadDelivery {
    AppPayloadDelivery {
        app_file: None,
        app_archive: Some(app.to_owned()),
        slot: false,
        execute: false,
    }
}

fn app_bundle_paths_are_validated() {
    let valid = vec![
        app_file("example_app", "config/settings.json"),
        app_archive("other-app"),
    ];
    assert!(validate_app_deliveries(&valid).is_ok());

    for (app, path) in [
        ("../escape", "file"),
        ("example", "/absolute"),
        ("example", "../escape"),
        ("example", "directory/./file"),
        ("example", ""),
    ] {
        assert!(
            validate_app_deliveries(&vec![app_file(app, path)]).is_err(),
            "{app:?} {path:?}"
        );
    }

    let system_delivery = vec![AppPayloadDelivery {
        app_file: None,
        app_archive: None,
        slot: true,
        execute: false,
    }];
    assert_eq!(
        validate_app_deliveries(&system_delivery).unwrap_err(),
        AppBundleError::NotAnAppPayload { payload: 0 }
    );
}

#[test]
fn cli_app_bundle_paths_are_validated_before_installation() {
    app_bundle_paths_are_validated();
}

#[test]
fn apps_app_bundle_paths_are_validated_before_installation() {
    app_bundle_paths_are_validated();
}

#[test]
fn app_bundle_errors_name_the_payload() {
    assert_eq!(
        validate_app_deliveries(&vec![]).unwrap_err(),
        AppBundleError::NoPayloads
    );
    let mut both = app_file("a", "f");
    both.app_archive = Some("a".to_owned());
    assert_eq!(
        validate_app_deliveries(&vec![app_archive("a"), both]).unwrap_err(),
        AppBundleError::DeliveryTypes {
            payload: 1,
            count: 2
        }
    );
    assert_eq!(
        validate_app_deliveries(&vec![app_archive("a/b")]).unwrap_err(),
        AppBundleError::InvalidAppName { payload: 0 }
    );
    assert_eq!(
        validate_app_deliveries(&vec![app_file("a", "..")]).unwrap_err(),
        AppBundleError::InvalidPath { payload: 0 }
    );
}

#[test]
fn touched_apps_are_sorted_and_own_the_components() {
    let apps = touched_apps(&vec![
        app_archive("b"),
        app_file("a", "x"),
        app_file("b", "y"),
    ]);
    assert_eq!(apps, ["a", "b"]);
    assert_eq!(
        app_bundle_components_owner(&apps).unwrap_err(),
        AppBundleError::ComponentsForManyApps
    );
    assert_eq!(
        app_bundle_components_owner(&vec![]).unwrap_err(),
        AppBundleError::ComponentsWithoutApp
    );
    assert_eq!(
        app_bundle_components_owner(&vec!["a".to_owned()]).unwrap(),
        "a"
    );
}

fn archive_with<F>(build: F) -> Vec<u8>
where
    F: FnOnce(&mut tar::Builder<Vec<u8>>),
{
    let mut builder = tar::Builder::new(Vec::new());
    build(&mut builder);
    builder.into_inner().unwrap()
}

fn archives_are_validated() {
    let safe = archive_with(|builder| {
        let mut header = tar::Header::new_gnu();
        header.set_size(4);
        header.set_mode(0o644);
        header.set_cksum();
        builder
            .append_data(&mut header, "directory/file", b"safe".as_slice())
            .unwrap();
    });
    assert!(validate_app_archive(&safe).is_ok());

    let escaping_link = archive_with(|builder| {
        let mut header = tar::Header::new_gnu();
        header.set_entry_type(tar::EntryType::Symlink);
        header.set_size(0);
        header.set_mode(0o777);
        header.set_cksum();
        builder
            .append_link(&mut header, "redirect", "../outside")
            .unwrap();
    });
    assert_eq!(
        validate_app_archive(&escaping_link).unwrap_err(),
        ArchiveError::InvalidTarget { entry: 0 }
    );

    let redirected_write = archive_with(|builder| {
        let mut link = tar::Header::new_gnu();
        link.set_entry_type(tar::EntryType::Symlink);
        link.set_size(0);
        link.set_mode(0o777);
        link.set_cksum();
        builder
            .append_link(&mut link, "redirect", "directory")
            .unwrap();

        let mut file = tar::Header::new_gnu();
        file.set_size(4);
        file.set_mode(0o644);
        file.set_cksum();
        builder
            .append_data(&mut file, "redirect/file", b"data".as_slice())
            .unwrap();
    });
    assert_eq!(
        validate_app_archive(&redirected_write).unwrap_err(),
        ArchiveError::BeneathLink { entry: 1 }
    );
}

#[test]
fn cli_app_archive_validation_rejects_escaping_and_redirected_paths() {
    archives_are_validated();
}

#[test]
fn apps_app_archive_validation_rejects_escaping_and_redirected_paths() {
    archives_are_validated();
}

#[test]
fn truncated_archives_are_unreadable() {
    let mut bytes = archive_with(|builder| {
        let mut header = tar::Header::new_gnu();
        header.set_size(4);
        header.set_mode(0o644);
        header.set_cksum();
        builder
            .append_data(&mut header, "file", b"data".as_slice())
            .unwrap();
    });
    bytes.truncate(100);
    assert_eq!(
        validate_app_archive(&bytes).unwrap_err(),
        ArchiveError::Unreadable { entry: 0 }
    );
    assert!(validate_app_archive(&[]).is_ok());
}

fn text(s: &str) -> ArchiveText {
    ArchiveText::Text(s.to_owned())
}

#[test]
fn archive_entries_are_refused_for_a_reason() {
    let plain = |path: ArchiveText| ArchiveEntry::Plain { path };
    let link = |path: ArchiveText, target: ArchiveText| ArchiveEntry::Link { path, target };
    let refused = |entries: Vec<ArchiveEntry>| validate_archive_entries(&entries).unwrap_err();
    assert_eq!(
        refused(vec![ArchiveEntry::Unreadable]),
        ArchiveError::Unreadable { entry: 0 }
    );
    assert_eq!(
        refused(vec![plain(ArchiveText::NotUtf8)]),
        ArchiveError::PathText { entry: 0 }
    );
    assert_eq!(
        refused(vec![plain(text("a")), plain(text("/b"))]),
        ArchiveError::InvalidPath { entry: 1 }
    );
    assert_eq!(
        refused(vec![plain(text("a")), plain(text("a"))]),
        ArchiveError::DuplicatePath { entry: 1 }
    );
    assert_eq!(
        refused(vec![link(text("a"), ArchiveText::Missing)]),
        ArchiveError::NoTarget { entry: 0 }
    );
    assert_eq!(
        refused(vec![link(text("a"), ArchiveText::NotUtf8)]),
        ArchiveError::TargetText { entry: 0 }
    );
    assert!(validate_archive_entries(&vec![
        link(text("a"), text("b")),
        plain(text("ab/c"))
    ])
    .is_ok());
}

fn plan(app: &str, previous: Option<u64>) -> AppActivationPlan {
    AppActivationPlan {
        app: app.to_owned(),
        generation: 2,
        previous,
    }
}

#[test]
fn multi_app_activation_rolls_back_every_earlier_app_in_reverse_order() {
    let plans = [plan("a", Some(1)), plan("b", None), plan("c", Some(1))];

    for failure_position in 0..plans.len() {
        let activated = RefCell::new(Vec::new());
        let rolled_back = RefCell::new(Vec::new());
        let result = run_app_activation_transaction(
            &plans,
            |plan: &AppActivationPlan| {
                let position = plans
                    .iter()
                    .position(|candidate| candidate == plan)
                    .unwrap();
                if position == failure_position {
                    return Err("injected activation failure");
                }
                activated.borrow_mut().push(plan.app.clone());
                Ok(())
            },
            |plan: &AppActivationPlan| {
                rolled_back.borrow_mut().push(plan.app.clone());
                Ok(())
            },
        );
        let failure = result.unwrap_err();
        assert_eq!(failure.app, plans[failure_position].app);
        let expected = plans[..failure_position]
            .iter()
            .rev()
            .map(|plan| plan.app.clone())
            .collect::<Vec<_>>();
        assert_eq!(*rolled_back.borrow(), expected);
    }
}

#[test]
fn multi_app_activation_reports_each_rollback_failure() {
    let plans = [plan("a", Some(1)), plan("b", Some(1))];
    let failure = run_app_activation_transaction(
        &plans,
        |plan: &AppActivationPlan| {
            if plan.app == "b" {
                Err("activation")
            } else {
                Ok(())
            }
        },
        |_: &AppActivationPlan| Err("rollback"),
    )
    .unwrap_err();
    assert_eq!(failure.rollbacks.len(), 1);
    assert!(failure.rollbacks[0].1.is_err());
}

#[test]
fn reboot_modes_without_a_target_return_command_errors() {
    assert!(require_update_target::<usize>(None, "reboot").is_err());
    assert_eq!(require_update_target(Some(1usize), "reboot").unwrap(), 1);
}

#[test]
fn component_metadata_policy_is_explicit_and_defaults_to_compatible() {
    let default = Config::default();
    assert!(!requires_bundle_components(&default));

    let required = Config {
        signatures: None,
        compatibility: Some(CompatibilityConfig {
            require_bundle_components: Some(true),
        }),
    };
    assert!(requires_bundle_components(&required));
    assert!(enforce_bundle_component_policy(&default, false, "system").is_ok());
    assert!(enforce_bundle_component_policy(&required, true, "system").is_ok());
    assert!(enforce_bundle_component_policy(&required, false, "system").is_err());
    assert!(enforce_bundle_component_policy(&required, false, "app").is_err());
}

#[test]
fn failed_preflight_runs_no_mutating_update_stage() {
    let hook = Cell::new(false);
    let overlay = Cell::new(false);
    let bootloader = Cell::new(false);
    let target = Cell::new(false);
    let payload_database = Cell::new(false);
    let result = prepare_system_update(
        || -> Result<(), &str> { Err("invalid destination") },
        || {
            hook.set(true);
            Ok(())
        },
        || {
            overlay.set(true);
            Ok(())
        },
        || {
            bootloader.set(true);
            Ok(())
        },
    );
    if result.is_ok() {
        target.set(true);
        payload_database.set(true);
    }
    assert!(result.is_err());
    assert!(!hook.get());
    assert!(!overlay.get());
    assert!(!bootloader.get());
    assert!(!target.get());
    assert!(!payload_database.get());
}

#[test]
fn failed_overlay_cleanup_stops_before_bootloader_or_payload_stages() {
    let pre_install = Cell::new(false);
    let payload_written = Cell::new(false);
    let prepared = prepare_system_update(
        || Ok(()),
        || Ok(()),
        || -> Result<(), &str> { Err("injected overlay failure") },
        || {
            pre_install.set(true);
            Ok(())
        },
    );
    if prepared.is_ok() {
        payload_written.set(true);
    }
    assert!(prepared.is_err());
    assert!(!pre_install.get());
    assert!(!payload_written.get());
}

#[test]
fn failed_payload_synchronization_preserves_state_and_boot_selection() {
    let payload_state_written = Cell::new(false);
    let boot_selection_changed = Cell::new(false);
    let result = finalize_payload_and_record(
        || -> Result<(), &str> { Err("injected payload synchronization failure") },
        |_| {
            payload_state_written.set(true);
            Ok(())
        },
    );
    if result.is_ok() {
        boot_selection_changed.set(true);
    }

    assert!(result.is_err());
    assert!(!payload_state_written.get());
    assert!(!boot_selection_changed.get());
}

#[test]
fn stages_run_in_order() {
    let order = RefCell::new(Vec::new());
    let result = prepare_system_update(
        || -> Result<u8, &str> {
            order.borrow_mut().push("preflight");
            Ok(7)
        },
        || {
            order.borrow_mut().push("hook");
            Ok(())
        },
        || {
            order.borrow_mut().push("overlay");
            Ok(())
        },
        || {
            order.borrow_mut().push("pre-install");
            Ok(())
        },
    );
    assert_eq!(result, Ok(7));
    assert_eq!(
        *order.borrow(),
        ["preflight", "hook", "overlay", "pre-install"]
    );
}

fn digest(bytes: &[u8]) -> HashDigest {
    HashDigest::of(HashAlgorithm::Sha256, bytes)
}

fn system_request(flow: InstallFlow) -> SystemInstallRequest {
    SystemInstallRequest {
        flow,
        is_incremental: false,
        has_components: true,
        requires_components: false,
        skip_compatibility_check: false,
        allow_missing_block_index: false,
        keep_overlay: false,
        target: Some(0),
        deliveries: vec![slot_delivery("system")],
        config_path: None,
    }
}

fn one_group() -> BootGroups {
    BootGroups {
        groups: vec![group("b", vec![("system", 0)])],
    }
}

fn facts(index: usize) -> PayloadFacts {
    PayloadFacts {
        index,
        has_block_index: true,
        delta_encoding: None,
        handler: None,
    }
}

#[test]
fn system_installation_takes_its_actions_in_order() {
    let slots = file_slots(&["system-b"]);
    let groups = one_group();
    let request = system_request(InstallFlow::Command);
    let (mut install, first) = SystemInstall::begin(&request, &slots, &groups);
    assert_eq!(first, SystemAction::CheckComponents { incremental: false });
    let mut step = |event: SystemEvent| install.next(&request, &slots, &groups, event);
    assert_eq!(step(SystemEvent::Done), SystemAction::LoadHooks);
    assert_eq!(step(SystemEvent::Done), SystemAction::RunPreUpdate);
    assert_eq!(
        step(SystemEvent::Done),
        SystemAction::ClearOverlay { group: 0 }
    );
    assert_eq!(
        step(SystemEvent::Done),
        SystemAction::PreInstall { group: 0 }
    );
    assert_eq!(step(SystemEvent::Done), SystemAction::LoadProgressHooks);
    assert_eq!(step(SystemEvent::Done), SystemAction::NextPayload);
    assert_eq!(
        step(SystemEvent::Payload(facts(0))),
        SystemAction::Erase { slot: 0 }
    );
    assert_eq!(step(SystemEvent::Done), SystemAction::ProvideBlocks);
    assert_eq!(step(SystemEvent::Done), SystemAction::WriteFile { slot: 0 });
    assert_eq!(
        step(SystemEvent::Written {
            digest: digest(b"x"),
            size: 1
        }),
        SystemAction::Save {
            slot: 0,
            with_digest: true
        }
    );
    assert_eq!(step(SystemEvent::Done), SystemAction::NextPayload);
    assert_eq!(step(SystemEvent::End), SystemAction::ReportWritten);
    assert_eq!(
        step(SystemEvent::Done),
        SystemAction::PostInstall { group: 0 }
    );
    assert_eq!(step(SystemEvent::Done), SystemAction::RunPostUpdate);
    assert_eq!(
        step(SystemEvent::Done),
        SystemAction::Done(SystemRebootMode::Yes)
    );
}

fn install_up_to_payload(
    request: &SystemInstallRequest,
    slots: &SystemSlots,
    groups: &BootGroups,
) -> SystemInstall {
    let (mut install, mut action) = SystemInstall::begin(request, slots, groups);
    while action != SystemAction::NextPayload {
        assert!(!matches!(action, SystemAction::Fail(_)), "{action:?}");
        action = install.next(request, slots, groups, SystemEvent::Done);
    }
    install
}

#[test]
fn payload_without_block_index_is_refused() {
    let slots = file_slots(&["system-b"]);
    let groups = one_group();
    let request = system_request(InstallFlow::Command);
    let mut install = install_up_to_payload(&request, &slots, &groups);
    let mut payload = facts(0);
    payload.has_block_index = false;
    let mut action = install.next(&request, &slots, &groups, SystemEvent::Payload(payload));
    if action == (SystemAction::Erase { slot: 0 }) {
        action = install.next(&request, &slots, &groups, SystemEvent::Done);
    }
    assert_eq!(
        action,
        SystemAction::Fail(SystemInstallError::MissingBlockIndex { payload: 0 })
    );
}

#[test]
fn payload_beyond_the_index_is_refused() {
    let slots = file_slots(&["system-b"]);
    let groups = one_group();
    let request = system_request(InstallFlow::Command);
    let mut install = install_up_to_payload(&request, &slots, &groups);
    assert_eq!(
        install.next(&request, &slots, &groups, SystemEvent::Payload(facts(1))),
        SystemAction::Fail(SystemInstallError::MissingFromIndex { payload: 1 })
    );
}

#[test]
fn differences_are_written_to_the_matching_slot() {
    let slots = file_slots(&["system-b", "system-a"]);
    let groups = one_group();
    let request = system_request(InstallFlow::Command);
    let mut install = install_up_to_payload(&request, &slots, &groups);
    let mut payload = facts(0);
    payload.delta_encoding = Some(DeltaEncoding {
        inputs: vec![vec![digest(b"old")]],
        original_hash: digest(b"new"),
    });
    let mut step = |event: SystemEvent| install.next(&request, &slots, &groups, event);
    assert_eq!(
        step(SystemEvent::Payload(payload)),
        SystemAction::Erase { slot: 0 }
    );
    assert_eq!(step(SystemEvent::Done), SystemAction::ProvideBlocks);
    assert_eq!(step(SystemEvent::Done), SystemAction::ReadStates);
    let states = vec![
        None,
        Some(SlotState {
            hashes: vec![digest(b"old")],
            size: Some(3),
        }),
    ];
    assert_eq!(
        step(SystemEvent::States(states)),
        SystemAction::WriteDelta { source: 1, slot: 0 }
    );
    assert_eq!(
        step(SystemEvent::Written {
            digest: digest(b"other"),
            size: 5
        }),
        SystemAction::Fail(SystemInstallError::HashMismatch)
    );
}

#[test]
fn failed_actions_end_the_installation() {
    let slots = file_slots(&["system-b"]);
    let groups = one_group();
    let request = system_request(InstallFlow::Operation);
    let (mut install, _) = SystemInstall::begin(&request, &slots, &groups);
    assert_eq!(
        install.next(&request, &slots, &groups, SystemEvent::Failed),
        SystemAction::Fail(SystemInstallError::ActionFailed)
    );
}

#[test]
fn component_policy_refuses_bundles_without_metadata() {
    let slots = file_slots(&["system-b"]);
    let groups = one_group();
    let mut request = system_request(InstallFlow::Operation);
    request.has_components = false;
    request.requires_components = true;
    let (_, action) = SystemInstall::begin(&request, &slots, &groups);
    assert_eq!(
        action,
        SystemAction::Fail(SystemInstallError::ComponentsRequired)
    );
    request.requires_components = false;
    let (_, action) = SystemInstall::begin(&request, &slots, &groups);
    assert_eq!(action, SystemAction::ReportSkip(SkipReason::NoMetadata));
}

#[test]
fn incompatible_components_are_reported() {
    let slots = file_slots(&["system-b"]);
    let groups = one_group();
    let request = system_request(InstallFlow::Operation);
    let (mut install, _) = SystemInstall::begin(&request, &slots, &groups);
    assert_eq!(
        install.next(&request, &slots, &groups, SystemEvent::Incompatible),
        SystemAction::ReportIncompatible
    );
    assert_eq!(
        install.next(&request, &slots, &groups, SystemEvent::Done),
        SystemAction::Fail(SystemInstallError::Incompatible)
    );
}

#[test]
fn delta_sources_are_found_by_digest() {
    let states = vec![
        None,
        Some(SlotState {
            hashes: vec![digest(b"a")],
            size: None,
        }),
        Some(SlotState {
            hashes: vec![digest(b"b")],
            size: None,
        }),
    ];
    assert_eq!(
        find_delta_source(&states, &vec![digest(b"x"), digest(b"b")]),
        Some(2)
    );
    assert_eq!(find_delta_source(&states, &vec![digest(b"c")]), None);
}

#[test]
fn blocks_come_from_files_and_present_devices() {
    let slots = SystemSlots {
        slots: vec![
            Slot {
                name: "absent".to_owned(),
                kind: SlotKind::Block { device: None },
                active: false,
                immutable: false,
            },
            Slot {
                name: "device".to_owned(),
                kind: SlotKind::Block {
                    device: Some("/dev/sda1".to_owned()),
                },
                active: false,
                immutable: false,
            },
            Slot {
                name: "custom".to_owned(),
                kind: SlotKind::Custom { handler: vec![] },
                active: false,
                immutable: false,
            },
            Slot {
                name: "file".to_owned(),
                kind: SlotKind::File {
                    path: "/f".to_owned(),
                },
                active: false,
                immutable: false,
            },
        ],
    };
    assert_eq!(list_block_sources(&slots), [1, 3]);
}

fn app_request(flow: InstallFlow) -> AppInstallRequest {
    AppInstallRequest {
        flow,
        deliveries: vec![app_file("app", "bin/run")],
        has_components: false,
        components_valid: false,
        requires_components: false,
        skip_compatibility_check: false,
        allow_missing_block_index: true,
    }
}

fn app_payload() -> AppPayloadFacts {
    AppPayloadFacts {
        index: 0,
        has_block_index: false,
        kind: AppPayloadKind::File {
            app: "app".to_owned(),
            path: "bin/run".to_owned(),
            has_mode: true,
        },
        delta_encoding: None,
    }
}

#[test]
fn app_installation_activates_complete_generations() {
    let request = app_request(InstallFlow::Operation);
    let (mut install, mut action) = AppInstall::begin(&request);
    let mut trace = Vec::new();
    let mut served = false;
    loop {
        trace.push(format!("{action:?}"));
        assert!(trace.len() < 100);
        let event = match action {
            AppAction::Done => break,
            AppAction::Fail(error) => panic!("{error:?}"),
            AppAction::NextPayload => {
                if served {
                    AppEvent::End
                } else {
                    served = true;
                    AppEvent::Payload(app_payload())
                }
            }
            AppAction::CreateGeneration { .. } => AppEvent::Created { generation: 3 },
            AppAction::WriteFile { .. } => AppEvent::Written {
                digest: digest(b"app"),
                size: 3,
            },
            AppAction::ReadCurrent { .. } => AppEvent::Current {
                generation: Some(2),
            },
            _ => AppEvent::Done,
        };
        action = install.next(&request, event);
    }
    let position = |name: &str| {
        trace
            .iter()
            .position(|step| step.starts_with(name))
            .unwrap_or_else(|| panic!("{name} {trace:?}"))
    };
    assert!(position("Lock") < position("CheckComponents"));
    assert!(position("CheckComponents") < position("CreateGeneration"));
    assert!(position("CheckLinks") < position("WriteFile"));
    assert!(position("WriteFile") < position("SetMode"));
    assert!(position("Finalize") < position("Activate"));
    assert!(trace.contains(&"Activate { app: 0, generation: 3 }".to_owned()));
    assert!(position("WriteFile") < position("SavePayloadStates"));
    let stored = &install.states[0];
    assert_eq!(stored.len(), 1);
    assert_eq!(stored[0].size, 3);
    assert!(stored[0].hash.equals(&digest(b"app")));
    let AppPayloadKind::File { path, .. } = app_payload().kind else {
        panic!("the payload is a file");
    };
    assert_eq!(stored[0].path, path);
}

#[test]
fn failed_app_activation_is_reported() {
    let request = app_request(InstallFlow::Operation);
    let (mut install, mut action) = AppInstall::begin(&request);
    let mut served = false;
    let error = loop {
        let event = match action {
            AppAction::Done => panic!("activation failed"),
            AppAction::Fail(error) => break error,
            AppAction::NextPayload => {
                if served {
                    AppEvent::End
                } else {
                    served = true;
                    AppEvent::Payload(app_payload())
                }
            }
            AppAction::CreateGeneration { .. } => AppEvent::Created { generation: 3 },
            AppAction::WriteFile { .. } => AppEvent::Written {
                digest: digest(b"app"),
                size: 3,
            },
            AppAction::ReadCurrent { .. } => AppEvent::Current {
                generation: Some(2),
            },
            AppAction::Activate { .. } => AppEvent::Failed,
            _ => AppEvent::Done,
        };
        action = install.next(&request, event);
    };
    assert_eq!(error, AppInstallError::ActivationFailed { app: 0 });
}

#[test]
fn failed_app_activation_rolls_back_the_earlier_apps() {
    let names = ["alpha", "beta", "gamma"];
    let mut request = app_request(InstallFlow::Operation);
    request.deliveries = names.iter().map(|name| app_file(name, "run")).collect();
    let (mut install, mut action) = AppInstall::begin(&request);
    let mut served: usize = 0;
    let mut rolled_back = Vec::new();
    let error = loop {
        let event = match action {
            AppAction::Done => panic!("activation failed"),
            AppAction::Fail(error) => break error,
            AppAction::NextPayload => {
                if served == names.len() {
                    AppEvent::End
                } else {
                    let mut payload = app_payload();
                    payload.index = served;
                    payload.kind = AppPayloadKind::File {
                        app: names[served].to_owned(),
                        path: "run".to_owned(),
                        has_mode: false,
                    };
                    served += 1;
                    AppEvent::Payload(payload)
                }
            }
            AppAction::CreateGeneration { .. } => AppEvent::Created { generation: 3 },
            AppAction::WriteFile { .. } => AppEvent::Written {
                digest: digest(b"app"),
                size: 3,
            },
            AppAction::ReadCurrent { app } => AppEvent::Current {
                generation: if app == 1 { None } else { Some(2) },
            },
            AppAction::Activate { app, .. } => {
                if app == 2 {
                    AppEvent::Failed
                } else {
                    AppEvent::Done
                }
            }
            AppAction::RollBack { app, previous } => {
                rolled_back.push((app, previous));
                if app == 1 {
                    AppEvent::Failed
                } else {
                    AppEvent::Done
                }
            }
            _ => AppEvent::Done,
        };
        action = install.next(&request, event);
    };
    assert_eq!(rolled_back, vec![(1, None), (0, Some(2))]);
    assert_eq!(error, AppInstallError::ActivationFailed { app: 2 });
    // What came of each is known, the last one that was activated first.
    assert_eq!(
        install.rollbacks,
        [
            AppRollback { app: 1, ok: false },
            AppRollback { app: 0, ok: true }
        ]
    );
}

#[test]
fn app_installation_refuses_invalid_bundles() {
    let mut request = app_request(InstallFlow::Operation);
    request.deliveries = vec![app_file("app", "../up")];
    let (_, action) = AppInstall::begin(&request);
    assert!(matches!(
        action,
        AppAction::Fail(AppInstallError::Bundle(AppBundleError::InvalidPath {
            payload: 0
        }))
    ));
}

#[test]
fn delta_candidates_must_be_complete_and_present() {
    let candidate = |complete: bool, present: bool| DeltaCandidate {
        complete,
        hashes: vec![digest(b"old")],
        present,
    };
    assert_eq!(
        find_delta_candidate(
            &vec![
                candidate(false, true),
                candidate(true, false),
                candidate(true, true)
            ],
            &vec![digest(b"old")]
        ),
        Some(2)
    );
    assert_eq!(
        find_delta_candidate(&vec![candidate(true, true)], &vec![digest(b"new")]),
        None
    );
}

#[test]
fn bundles_are_located_by_their_name() {
    assert_eq!(
        locate_bundle("https://example.org/b.rugixb"),
        BundleLocation::Http
    );
    assert_eq!(locate_bundle("-"), BundleLocation::Stdin);
    assert_eq!(locate_bundle("./bundle"), BundleLocation::File);
}

fn http_source(disable_range_queries: bool) -> InstallSource {
    InstallSource::Http {
        url: "http://host/b".to_owned(),
        disable_range_queries,
        retry: RetryConfig::default(),
    }
}

#[test]
fn sources_and_inputs_have_to_fit() {
    assert_eq!(
        choose_source(&InstallSource::Stream, BundleInput::Nothing, true),
        Err(SourceError::InputRequired)
    );
    assert_eq!(
        choose_source(&InstallSource::Stream, BundleInput::Stream, true),
        Ok(SourcePlan::SkipByReading)
    );
    assert_eq!(
        choose_source(&InstallSource::Stream, BundleInput::Seekable, true),
        Ok(SourcePlan::SkipBySeeking)
    );
    assert_eq!(
        choose_source(&http_source(false), BundleInput::Stream, true),
        Err(SourceError::UnexpectedInput)
    );
    assert_eq!(
        choose_source(&http_source(false), BundleInput::Nothing, true),
        Ok(SourcePlan::Http {
            use_range_queries: true
        })
    );
    assert_eq!(
        choose_source(&http_source(true), BundleInput::Nothing, true),
        Ok(SourcePlan::Http {
            use_range_queries: false
        })
    );
}

#[test]
fn explicit_certificates_override_the_configured_ones() {
    let config = Config {
        signatures: Some(SignaturesConfig {
            roots: vec!["/a.pem".to_owned(), "/b.pem".to_owned()],
        }),
        compatibility: None,
    };
    let configured = configured_signature_roots(&config, None);
    assert!(matches!(
        configured.as_slice(),
        [SignatureRoot::ConfiguredPath(a), SignatureRoot::ConfiguredPath(b)]
            if a == "/a.pem" && b == "/b.pem"
    ));
    let explicit = configured_signature_roots(&config, Some(&vec![1, 2]));
    assert!(matches!(
        explicit.as_slice(),
        [SignatureRoot::ExplicitCertificate(bytes)] if bytes == &[1, 2]
    ));
    assert_eq!(
        command_signature_root(&config, &None).as_deref(),
        Some("/a.pem")
    );
    assert_eq!(
        command_signature_root(&config, &Some("/c.pem".to_owned())).as_deref(),
        Some("/c.pem")
    );
}

#[test]
fn signatures_have_to_sign_the_header() {
    let signed = |found: &[u8]| SignatureCheck::Signed {
        signed: digest(b"header"),
        found: digest(found),
    };
    assert!(signed(b"header").is_valid());
    assert!(!signed(b"other").is_valid());
    assert!(verify_bundle_signature(
        1,
        Some(&vec![vec![SignatureCheck::Rejected, signed(b"header")]])
    ));
    assert!(!verify_bundle_signature(
        1,
        Some(&vec![vec![signed(b"other")]])
    ));
    assert!(!verify_bundle_signature(1, None));
    assert_eq!(
        verify_by_root(true, Some(&vec![signed(b"header")])),
        Ok(true)
    );
    assert_eq!(verify_by_root(false, None), Ok(false));
    assert!(verify_by_root(true, Some(&vec![SignatureCheck::Undecodable])).is_err());
}

#[test]
fn boot_groups_are_selected_for_updates() {
    let mut groups = BootGroups {
        groups: vec![group("a", vec![]), group("b", vec![])],
    };
    groups.groups[0].active = true;
    assert_eq!(select_boot_group(&groups, &None, false), Ok(Some(1)));
    assert_eq!(
        select_boot_group(&groups, &None, true),
        Err(SelectError::NeedsCommit)
    );
    assert_eq!(
        select_boot_group(&groups, &Some("a".to_owned()), false),
        Err(SelectError::ActiveGroup { group: 0 })
    );
    assert_eq!(
        select_boot_group(&groups, &Some("x".to_owned()), false),
        Err(SelectError::UnknownGroup)
    );
    groups.groups.push(group("c", vec![]));
    assert_eq!(select_boot_group(&groups, &None, false), Ok(None));
}

fn bundle_request(reboot: Option<SystemRebootMode>, flow: InstallFlow) -> BundleRunRequest {
    BundleRunRequest {
        flow,
        source: InstallSource::Stream,
        input: BundleInput::Seekable,
        target: InstallTarget::System {
            reboot,
            keep_overlay: false,
            boot_group: None,
        },
        has_bundle_hash: false,
        insecure_skip_bundle_verification: false,
    }
}

#[test]
fn unverified_bundles_are_not_installed() {
    let request = bundle_request(None, InstallFlow::Command);
    let mut groups = BootGroups {
        groups: vec![group("a", vec![]), group("b", vec![])],
    };
    groups.groups[0].active = true;
    let (mut run, action) = BundleRun::begin(&request);
    assert_eq!(action, BundleRunAction::LockUpdate);
    assert_eq!(
        run.next(&request, BundleRunEvent::Done),
        BundleRunAction::InitializeSystem
    );
    assert_eq!(
        run.system_ready(&request, &groups, false),
        BundleRunAction::OpenSource(SourcePlan::SkipBySeeking)
    );
    assert_eq!(
        run.next(&request, BundleRunEvent::Done),
        BundleRunAction::StartReader
    );
    assert_eq!(
        run.next(&request, BundleRunEvent::Done),
        BundleRunAction::VerifySignatures
    );
    assert_eq!(
        run.next(&request, BundleRunEvent::Verified(false)),
        BundleRunAction::Fail(BundleRunError::Unverified(BundleKind::System))
    );
}

#[test]
fn verified_bundles_are_installed_and_booted() {
    for (reboot, expected) in [
        (None, BundleRunAction::SetTryNext { group: 1 }),
        (
            Some(SystemRebootMode::SetNext),
            BundleRunAction::SetTryNext { group: 1 },
        ),
        (Some(SystemRebootMode::No), BundleRunAction::Done),
        (
            Some(SystemRebootMode::Deferred),
            BundleRunAction::DeferTarget { group: 1 },
        ),
    ] {
        let mut request = bundle_request(reboot, InstallFlow::Operation);
        request.has_bundle_hash = true;
        let mut groups = BootGroups {
            groups: vec![group("a", vec![]), group("b", vec![])],
        };
        groups.groups[0].active = true;
        let (mut run, _) = BundleRun::begin(&request);
        assert_eq!(
            run.next(&request, BundleRunEvent::Done),
            BundleRunAction::EmitStarted
        );
        assert_eq!(
            run.next(&request, BundleRunEvent::Done),
            BundleRunAction::InitializeSystem
        );
        run.system_ready(&request, &groups, false);
        run.next(&request, BundleRunEvent::Done);
        assert_eq!(
            run.next(&request, BundleRunEvent::Done),
            BundleRunAction::InstallPayloads { target: Some(1) }
        );
        assert_eq!(
            run.next(&request, BundleRunEvent::Installed(SystemRebootMode::Yes)),
            expected
        );
    }
}

#[test]
fn bundle_kinds_have_names() {
    assert_eq!(rugix_ctrl::operations::install::bundle::BundleKind::App.scope(), "app");
    assert_eq!(rugix_ctrl::operations::install::bundle::BundleKind::System.scope(), "system");
}
