use std::cell::RefCell;
use std::collections::BTreeSet;

use rugix_ctrl::apps::manager::AppManager;
use rugix_ctrl::cli::data::{wipe_marker, DataWipe, WipeAction, WipeError, WipeEvent};
use rugix_ctrl::cli::image::{ImageHash, MaybeStreamHasher, ProgressWidget, UpdateStatus};
use rugix_ctrl::cli::slots::{create_index, SlotError, SlotVerification};
use rugix_ctrl::cli::{
    components_exit_code, BootCommand, Boolean, DataCommand, FlagChange, Mark, MarkError,
    OverlayCommand, StateCommand, StatePlan, SystemCommand, SystemPlan, UpdateRebootType,
};
use rugix_ctrl::config::Config;
use rugix_ctrl::daemon::{
    conclude_operation, is_privileged, load_daemon_settings, query_info, receive_response,
    resolve_daemon_settings, ClientAction, ConfigFile, DaemonClient, DaemonConfig,
    DaemonConfigError, DaemonFeaturesConfig, DaemonResponse, DaemonSettingsError, InputOutcome,
    OperationOutcome,
};
use rugix_ctrl::digest::{HashAlgorithm, HashDigest};
use rugix_ctrl::operations::install::system::{SlotState, SystemRebootMode};
use rugix_ctrl::operations::local::LocalExecutor;
use rugix_ctrl::operations::state::{
    backup_name_at, default_backup_name, validate_backup_name, FactoryReset, ResetAction,
    ResetError,
};
use rugix_ctrl::operations::system::{
    Commit, CommitAction, CommitEvent, RebootAction, RebootSystem,
};
use rugix_ctrl::system::boot_groups::{BootGroup, BootGroups};
use rugix_ctrl::system::slots::{Slot, SlotKind, SystemSlots};
use rugix_ctrl::system::System;
use rugix_ctrl::system_state::{
    state_from_system, state_status, FlowFacts, StateInfoOutput, StoredSlotState,
    SystemInfoOutput,
};
use rugix_ctrl::utils::{
    clear_flag, deferred_spare_reboot_flag, is_flag_set, is_init_process,
    read_deferred_reboot_target, reboot_method, set_deferred_reboot_target, set_flag, state_flag_cleared,
    state_flag_path, AfterRemoval, DeferredError, DeferredRebootTarget, FlagRemoval, RebootMethod,
};

fn groups(names: &[&str]) -> BootGroups {
    BootGroups {
        groups: names
            .iter()
            .map(|name| BootGroup {
                name: (*name).to_owned(),
                slots: vec![],
                active: false,
            })
            .collect(),
    }
}

fn system(active: Option<usize>) -> System {
    let mut boot_entries = groups(&["a", "b"]);
    if let Some(active) = active {
        boot_entries.groups[active].active = true;
    }
    System {
        slots: SystemSlots { slots: vec![] },
        boot_entries,
        active_boot_entry: active,
    }
}

#[test]
fn privileged_features_and_insecure_options_are_disabled_by_default() {
    let settings = resolve_daemon_settings(DaemonConfig::default()).unwrap();

    assert!(!settings.dangerously_insecure);
    assert!(!settings.features.factory_reset);
    assert!(!settings.features.system_commit);
    assert!(!settings.features.system_reboot);
    assert!(!settings.features.app_lifecycle);
    assert_eq!(settings.socket_path, "/run/rugix/ctrl.sock");
    assert_eq!(settings.max_control_frame_size, 8 * 1024 * 1024);
}

/// Reads a configuration from its file format.
fn daemon_config(text: &str) -> DaemonConfig {
    let table: toml::Table = text.parse().unwrap();
    let flag = |table: &toml::Table, name: &str| table.get(name).and_then(|value| value.as_bool());
    DaemonConfig {
        socket_path: table
            .get("socket-path")
            .map(|value| value.as_str().unwrap().to_owned()),
        max_control_frame_size: table
            .get("max-control-frame-size")
            .map(|value| value.as_integer().unwrap() as u64),
        dangerously_insecure: flag(&table, "dangerously-insecure"),
        features: table.get("features").map(|features| {
            let features = features.as_table().unwrap();
            DaemonFeaturesConfig {
                factory_reset: flag(features, "factory-reset"),
                system_commit: flag(features, "system-commit"),
                system_reboot: flag(features, "system-reboot"),
                app_lifecycle: flag(features, "app-lifecycle"),
            }
        }),
    }
}

#[test]
fn parses_explicit_daemon_capabilities() {
    let config = daemon_config(
        r#"
            socket-path = "/tmp/rugix.sock"
            max-control-frame-size = 4096
            dangerously-insecure = true

            [features]
            factory-reset = true
            system-commit = true
            system-reboot = true
            app-lifecycle = true
        "#,
    );
    let settings = resolve_daemon_settings(config).unwrap();

    assert_eq!(settings.socket_path, "/tmp/rugix.sock");
    assert_eq!(settings.max_control_frame_size, 4096);
    assert!(settings.dangerously_insecure);
    assert!(settings.features.factory_reset);
    assert!(settings.features.system_commit);
    assert!(settings.features.system_reboot);
    assert!(settings.features.app_lifecycle);
    let info = DaemonClient::new(settings).settings.info();
    assert!(info.dangerously_insecure && info.features.system_reboot);
}

#[test]
fn daemon_configurations_are_refused_for_a_reason() {
    assert_eq!(
        resolve_daemon_settings(daemon_config("max-control-frame-size = 0")).err(),
        Some(DaemonConfigError::ZeroFrameSize)
    );
    assert!(load_daemon_settings(ConfigFile::Missing).is_ok());
    assert_eq!(
        load_daemon_settings(ConfigFile::Unreadable).err(),
        Some(DaemonSettingsError::Unreadable)
    );
    assert_eq!(
        load_daemon_settings(ConfigFile::Unparsable).err(),
        Some(DaemonSettingsError::Unparsable)
    );
    assert_eq!(
        load_daemon_settings(ConfigFile::Parsed(daemon_config(
            "max-control-frame-size = 0"
        )))
        .err(),
        Some(DaemonSettingsError::Config(
            DaemonConfigError::ZeroFrameSize
        ))
    );
}

#[test]
fn daemon_responses_end_with_an_output_or_a_failure() {
    assert!(matches!(
        receive_response(DaemonResponse::Event { decoded: true }),
        ClientAction::Emit
    ));
    assert!(matches!(
        receive_response(DaemonResponse::Output { decoded: true }),
        ClientAction::Return
    ));
    let failed = |response: DaemonResponse| match receive_response(response) {
        ClientAction::Fail { message } => message,
        other => panic!("{other:?}"),
    };
    assert_eq!(
        failed(DaemonResponse::OperationError {
            message: "refused".to_owned()
        }),
        "refused"
    );
    assert_eq!(
        failed(DaemonResponse::ProtocolError {
            message: "bad frame".to_owned()
        }),
        "privileged Rugix Ctrl daemon protocol error: bad frame"
    );
    assert_eq!(
        failed(DaemonResponse::Output { decoded: false }),
        "unable to decode daemon operation output"
    );
    assert_eq!(
        query_info(DaemonResponse::Event { decoded: true }).unwrap_err(),
        "privileged Rugix Ctrl daemon sent an unexpected information event"
    );
    assert!(query_info(DaemonResponse::Output { decoded: true }).is_ok());
    assert_eq!(
        query_info(DaemonResponse::Output { decoded: false }).unwrap_err(),
        "unable to decode privileged daemon information"
    );
}

#[test]
fn failed_responses_count_for_more_than_failed_inputs() {
    assert_eq!(
        conclude_operation(true, InputOutcome::Sent),
        OperationOutcome::Output
    );
    assert_eq!(
        conclude_operation(true, InputOutcome::Failed),
        OperationOutcome::InputFailed
    );
    assert_eq!(
        conclude_operation(false, InputOutcome::Failed),
        OperationOutcome::ResponseFailed
    );
    assert_eq!(
        conclude_operation(false, InputOutcome::Panicked),
        OperationOutcome::InputPanicked
    );
    assert!(is_privileged(0) && !is_privileged(1000));
}

fn decode(data: &[u8]) -> Result<DeferredRebootTarget, String> {
    let value: serde_json::Value =
        serde_json::from_slice(data).map_err(|error| error.to_string())?;
    let field = |name: &str| value.get(name).ok_or(format!("missing {name}"));
    Ok(DeferredRebootTarget {
        version: field("version")?.as_u64().ok_or("no number")? as u32,
        boot_group: field("bootGroup")?.as_str().ok_or("no text")?.to_owned(),
    })
}

#[test]
fn deferred_reboot_targets_are_versioned_and_legacy_markers_remain_readable() {
    let target = set_deferred_reboot_target("group-b");
    let data = format!(
        "{{\"version\":{},\"bootGroup\":\"{}\"}}",
        target.version, target.boot_group
    );
    assert_eq!(
        read_deferred_reboot_target(data.as_bytes(), decode).unwrap(),
        Some("group-b".to_owned())
    );
    assert_eq!(read_deferred_reboot_target(b"", decode).unwrap(), None);
}

#[test]
fn unknown_deferred_reboot_marker_versions_are_rejected() {
    let error = read_deferred_reboot_target(br#"{"version":2,"bootGroup":"group-b"}"#, decode)
        .unwrap_err();
    assert!(matches!(
        error,
        DeferredError::UnsupportedVersion { version: 2 }
    ));
    assert!(matches!(
        read_deferred_reboot_target(b"{", decode),
        Err(DeferredError::Undecodable(_))
    ));
}

#[test]
fn flags_are_files() {
    assert_eq!(
        deferred_spare_reboot_flag(),
        "/run/rugix/mounts/data/.rugix/deferred-reboot-spare"
    );
    assert!(is_flag_set("/x", |path| path == "/x"));
    let files = RefCell::new(BTreeSet::new());
    let is_set = |path: &str| is_flag_set(path, |path| files.borrow().contains(path));
    assert!(!is_set("/flag"));
    let written: Result<(), ()> = set_flag("/flag", |path, data| {
        assert!(data.is_empty());
        files.borrow_mut().insert(path.to_owned());
        Ok(())
    });
    assert_eq!(written, Ok(()));
    assert!(is_set("/flag"));
    assert!(!is_set("/other"));
    assert_eq!(set_flag("/x", |_, _| Err("full")), Err("full"));
    files.borrow_mut().remove("/flag");
    assert_eq!(clear_flag(FlagRemoval::Removed), AfterRemoval::SyncParent);
    assert!(!is_set("/flag"));
    assert_eq!(
        state_flag_path("reset-state"),
        "/run/rugix/state/.rugix/reset-state"
    );
    assert_eq!(clear_flag(FlagRemoval::Removed), AfterRemoval::SyncParent);
    assert_eq!(clear_flag(FlagRemoval::NotFound), AfterRemoval::Nothing);
    assert_eq!(clear_flag(FlagRemoval::Failed), AfterRemoval::Fail);
    assert!(state_flag_cleared(FlagRemoval::NotFound, false));
    assert!(!state_flag_cleared(FlagRemoval::Removed, true));
    assert!(is_init_process(1));
    assert_eq!(reboot_method(1), RebootMethod::Kernel);
    assert_eq!(reboot_method(2), RebootMethod::Command);
}

#[test]
fn system_info_without_boot_omits_boot_field() {
    let output = SystemInfoOutput {
        slots: Vec::new(),
        boot: None,
        state: StateInfoOutput::Disabled,
    };
    assert!(output.boot.is_none());
    let built = state_from_system(&system(None), &vec![], None, StateInfoOutput::Disabled);
    assert!(built.boot.is_none());
}

#[test]
fn state_status_reports_fallbacks_as_errors() {
    let data_mount_state = state_status(true, false, true, None);
    let StateInfoOutput::Error(data_mount_error) = data_mount_state else {
        panic!("a data mount fallback should be reported as an error");
    };
    assert_eq!(data_mount_error.ephemeral, Some(true));
    assert!(data_mount_error
        .message
        .as_deref()
        .is_some_and(|message| message.contains("data partition failed to mount")));

    let StateInfoOutput::Error(overlay_error) = state_status(true, true, false, None) else {
        panic!("an overlay fallback should be reported as an error");
    };
    assert_eq!(overlay_error.ephemeral, Some(true));
    assert!(overlay_error
        .message
        .as_deref()
        .is_some_and(|message| message.contains("root overlay failed")));

    assert!(matches!(
        state_status(true, false, false, Some("/dev/test".to_owned())),
        StateInfoOutput::Active(_)
    ));
    assert!(matches!(
        state_status(false, true, true, None),
        StateInfoOutput::Disabled
    ));
}

#[test]
fn snapshots_show_slots_and_groups() {
    let mut system = system(Some(1));
    system.slots.slots.push(Slot {
        name: "system-a".to_owned(),
        kind: SlotKind::File {
            path: "/a".to_owned(),
        },
        active: false,
        immutable: true,
    });
    let digest = HashDigest::of(HashAlgorithm::Sha256, b"abc");
    let text = digest.text();
    let stored = vec![Some(StoredSlotState {
        state: SlotState {
            hashes: vec![digest],
            size: Some(3),
        },
        updated_at: Some("now".to_owned()),
    })];
    let info = state_from_system(
        &system,
        &stored,
        Some(FlowFacts {
            name: "grub".to_owned(),
            default_group: 0,
        }),
        StateInfoOutput::Disabled,
    );
    assert_eq!(info.slots[0].0, "system-a");
    assert_eq!(
        info.slots[0].1.hashes.as_deref(),
        Some([("sha256".to_owned(), text)].as_slice())
    );
    assert_eq!(info.slots[0].1.size, Some(3));
    let boot = info.boot.unwrap();
    assert_eq!(boot.boot_flow, "grub");
    assert_eq!(boot.active_group.as_deref(), Some("b"));
    assert_eq!(boot.default_group.as_deref(), Some("a"));
    assert_eq!(boot.groups, ["a", "b"]);
}

#[test]
fn executors_reuse_a_supplied_manager() {
    let config = Config::default();
    let manager = AppManager::new("/apps".to_owned(), "none".to_owned());
    let executor = LocalExecutor::new(&config).with_app_manager(&manager);
    let dir = executor.context.with_app_manager(
        || -> Result<AppManager, &str> { Err("not loaded") },
        |manager: &AppManager| Ok(manager.apps_dir.clone()),
    );
    assert_eq!(dir, Ok("/apps".to_owned()));
    let dir = LocalExecutor::new(&config).context.with_app_manager(
        || Ok(AppManager::new("/loaded".to_owned(), "none".to_owned())),
        |manager: &AppManager| -> Result<String, &str> { Ok(manager.apps_dir.clone()) },
    );
    assert_eq!(dir, Ok("/loaded".to_owned()));
    let failed = LocalExecutor::new(&config).context.with_app_manager(
        || -> Result<AppManager, &str> { Err("not loaded") },
        |manager: &AppManager| Ok(manager.apps_dir.clone()),
    );
    assert_eq!(failed, Err("not loaded"));
    assert!(executor.context.config().signatures.is_none());
}

#[test]
fn resets_are_flagged_before_the_reboot() {
    let reset = FactoryReset {
        backup: true,
        backup_name: Some("before".to_owned()),
    };
    assert!(!reset.ignores_backup_name());
    let (mut run, action) = reset.factory_reset();
    assert!(matches!(action, ResetAction::LoadHooks));
    assert!(matches!(run.next(true), ResetAction::RunPrepare));
    assert!(matches!(run.next(true), ResetAction::CreateFlagDirectory));
    let ResetAction::SetFlag { backup_name } = run.next(true) else {
        panic!("the flag is set");
    };
    assert_eq!(backup_name.as_deref(), Some("before"));
    assert!(matches!(run.next(true), ResetAction::Reboot));
    assert!(matches!(run.next(true), ResetAction::Done));

    let refused = FactoryReset {
        backup: true,
        backup_name: Some("a/b".to_owned()),
    };
    assert_eq!(refused.flag(), Err(ResetError::SeveralComponents));
    assert_eq!(
        validate_backup_name("../up"),
        Err(ResetError::InvalidBackupName)
    );
    let plain = FactoryReset {
        backup: false,
        backup_name: Some("x".to_owned()),
    };
    assert!(plain.ignores_backup_name());
    assert_eq!(plain.flag(), Ok(None));
    let (mut failed, _) = plain.factory_reset();
    assert!(matches!(
        failed.next(false),
        ResetAction::Fail(ResetError::ActionFailed)
    ));
}

#[test]
fn a_backup_is_named_after_the_time_it_is_made() {
    assert_eq!(backup_name_at(0).as_deref(), Some("default.19700101000000"));
    assert_eq!(backup_name_at(-1).as_deref(), Some("default.19691231235959"));
    assert_eq!(
        backup_name_at(1_700_000_000_999_999_999).as_deref(),
        Some("default.20231114221320")
    );
    let first: i128 = -377_705_023_201_000_000_000;
    let last: i128 = 253_402_207_200_999_999_999;
    assert_eq!(backup_name_at(last).as_deref(), Some("default.99991230220000"));
    assert!(backup_name_at(first).unwrap().starts_with("default.-9999"));
    assert_eq!(backup_name_at(first - 1), None);
    assert_eq!(backup_name_at(last + 1), None);
}

#[test]
fn backups_are_named_after_the_time() {
    let name = default_backup_name().unwrap();
    let stamp = name.strip_prefix("default.").unwrap();
    assert_eq!(stamp.len(), 14);
    assert!(stamp.chars().all(|c| c.is_ascii_digit()));
    assert!(stamp > "20200101000000");
    assert!(validate_backup_name(&name).is_ok());
    let reset = FactoryReset {
        backup: true,
        backup_name: None,
    };
    assert!(reset.flag().unwrap().unwrap().starts_with("default."));
}

#[test]
fn commits_are_made_only_where_they_are_needed() {
    let (mut commit, action) = Commit::commit_system();
    assert_eq!(action, CommitAction::AskDefault);
    assert_eq!(
        commit.next(&system(Some(1)), CommitEvent::Default(1)),
        CommitAction::Done
    );
    let (mut commit, _) = Commit::commit_system();
    let system = system(Some(1));
    assert_eq!(
        commit.next(&system, CommitEvent::Default(0)),
        CommitAction::LoadHooks
    );
    assert_eq!(
        commit.next(&system, CommitEvent::Done),
        CommitAction::RunPreCommit
    );
    assert_eq!(
        commit.next(&system, CommitEvent::Done),
        CommitAction::Commit
    );
    assert_eq!(
        commit.next(&system, CommitEvent::Done),
        CommitAction::RunPostCommit
    );
    assert_eq!(commit.next(&system, CommitEvent::Done), CommitAction::Done);
    let (mut commit, _) = Commit::commit_system();
    assert_eq!(
        commit.next(&system, CommitEvent::Failed),
        CommitAction::Fail
    );
}

#[test]
fn spare_systems_are_selected_before_the_reboot() {
    let (mut reboot, action) = RebootSystem { spare: true }.reboot_system();
    assert_eq!(action, RebootAction::AskDefault);
    assert_eq!(
        reboot.next(&system(Some(0)), CommitEvent::Default(0)),
        RebootAction::SetTryNext { group: 1 }
    );
    assert_eq!(
        reboot.next(&system(Some(0)), CommitEvent::Done),
        RebootAction::Reboot
    );
    let (_, action) = RebootSystem { spare: false }.reboot_system();
    assert_eq!(action, RebootAction::Reboot);
}

#[test]
fn commands_come_down_to_operations() {
    assert_eq!(UpdateRebootType::SetNext.mode(), SystemRebootMode::SetNext);
    assert_eq!(Boolean::True.flag_change(), FlagChange::Raise);
    assert!(matches!(
        StateCommand::Overlay(OverlayCommand::ForcePersist {
            persist: Boolean::False
        })
        .plan(),
        StatePlan::Flag {
            name: "force-persist-overlay",
            change: FlagChange::Clear
        }
    ));
    assert!(matches!(
        StateCommand::Reset {
            backup: true,
            backup_name: None
        }
        .plan(),
        StatePlan::Reset(FactoryReset { backup: true, .. })
    ));
    assert_eq!(
        SystemCommand::Reboot { spare: true }.plan(),
        SystemPlan::Reboot(RebootSystem { spare: true })
    );
    assert_eq!(components_exit_code(Some(true)), 0);
    assert_eq!(components_exit_code(Some(false)), 1);
    assert_eq!(components_exit_code(None), 2);
}

#[test]
fn boot_groups_are_marked_by_name() {
    let groups = groups(&["a", "b"]);
    let good = |group: Option<&str>| BootCommand::MarkGood {
        group: group.map(|group| group.to_owned()),
    };
    assert_eq!(
        good(Some("b")).mark(&groups, None),
        Ok(Mark::Good { group: 1 })
    );
    assert_eq!(good(None).mark(&groups, Some(0)), Ok(Mark::Good { group: 0 }));
    assert_eq!(
        good(None).mark(&groups, None),
        Err(MarkError::NoActiveGroup)
    );
    assert_eq!(
        BootCommand::MarkBad {
            group: "x".to_owned()
        }
        .mark(&groups, Some(0)),
        Err(MarkError::UnknownGroup)
    );
}

#[test]
fn wipes_have_to_be_confirmed() {
    assert_eq!(wipe_marker("/config"), "/config/.rugix/wipe-data");
    let (mut wipe, action) = DataWipe::run_data_wipe(DataCommand::Wipe {
        yes: false,
        no_reboot: false,
    });
    assert_eq!(action, WipeAction::LockUpdate);
    assert_eq!(wipe.next(WipeEvent::Done), WipeAction::WarnDestructive);
    assert_eq!(
        wipe.next(WipeEvent::Done),
        WipeAction::Fail(WipeError::NotConfirmed)
    );
    let (mut wipe, _) = DataWipe::run_data_wipe(DataCommand::Wipe {
        yes: true,
        no_reboot: false,
    });
    let mut actions = Vec::new();
    for _ in 0..6 {
        actions.push(wipe.next(WipeEvent::Done));
    }
    assert_eq!(
        actions,
        [
            WipeAction::FindConfigPartition,
            WipeAction::MakeWritable,
            WipeAction::CreateDirectory,
            WipeAction::WriteMarker,
            WipeAction::Reboot,
            WipeAction::Done
        ]
    );
    let (mut wipe, _) = DataWipe::run_data_wipe(DataCommand::Wipe {
        yes: true,
        no_reboot: true,
    });
    wipe.next(WipeEvent::Done);
    assert_eq!(
        wipe.next(WipeEvent::NotFound),
        WipeAction::Fail(WipeError::NoConfigPartition)
    );
}

#[test]
fn images_are_compared_with_their_digest() {
    let expected = HashDigest::of(HashAlgorithm::Sha256, b"image").raw;
    let hasher = MaybeStreamHasher::new(Some(ImageHash::Sha256(expected.clone())));
    assert!(hasher.read(b"image!", 5).verify().is_ok());
    let hasher = MaybeStreamHasher::new(Some(ImageHash::Sha256(vec![0xab])));
    let message = hasher.read(b"abc", 3).verify().unwrap_err();
    assert_eq!(
        message,
        "**Image Hash Mismatch:**\nExpected: ab\nFound: \
         ba7816bf8f01cfea414140de5dae2223b00361a396177a9cb410ff61f20015ad\n"
    );
    assert!(MaybeStreamHasher::new(None)
        .read(b"abc", 3)
        .verify()
        .is_ok());
}

#[test]
fn progress_is_shown_once_it_is_known() {
    let mut status = UpdateStatus::new();
    assert_eq!(status.widget(), ProgressWidget::Spinner);
    assert!(!status.record(Some(1), None));
    assert!(!status.record(Some(1), Some(0)));
    assert!(status.record(Some(1), Some(4)));
    assert_eq!(
        status.widget(),
        ProgressWidget::Bar {
            position: 1,
            length: 4
        }
    );
}

fn slot(kind: SlotKind, immutable: bool) -> SystemSlots {
    SystemSlots {
        slots: vec![Slot {
            name: "s".to_owned(),
            kind,
            active: false,
            immutable,
        }],
    }
}

fn file_kind() -> SlotKind {
    SlotKind::File {
        path: "/s".to_owned(),
    }
}

fn stored(size: Option<u64>) -> Option<SlotState> {
    Some(SlotState {
        hashes: vec![HashDigest::of(HashAlgorithm::Sha256, b"abc")],
        size,
    })
}

#[test]
fn slots_are_verified_up_to_their_size() {
    let slots = slot(file_kind(), true);
    let (verification, path) = SlotVerification::begin(&slots, 0, stored(Some(3))).unwrap();
    assert_eq!(path, "/s");
    assert!(verification.wants_more());
    let verification = verification.take(b"ab", 2).take(b"cdef", 4);
    assert!(!verification.wants_more());
    assert!(verification.finish("s").is_ok());

    let (verification, _) = SlotVerification::begin(&slots, 0, stored(None)).unwrap();
    let message = verification.take(b"", 0).finish("s").unwrap_err();
    assert_eq!(
        message,
        "hash mismatch for slot s: expected \
         sha256_ba7816bf8f01cfea414140de5dae2223b00361a396177a9cb410ff61f20015ad, found \
         sha256_e3b0c44298fc1c149afbf4c8996fb92427ae41e4649b934ca495991b7852b855"
    );
}

#[test]
fn slots_are_refused_for_a_reason() {
    let error = |slots: SystemSlots, state: Option<SlotState>| {
        SlotVerification::begin(&slots, 0, state).err()
    };
    assert_eq!(
        error(slot(file_kind(), true), None),
        Some(SlotError::NoState { slot: 0 })
    );
    assert_eq!(
        error(slot(file_kind(), false), stored(None)),
        Some(SlotError::NotImmutable { slot: 0 })
    );
    let nothing = Some(SlotState {
        hashes: vec![],
        size: None,
    });
    assert_eq!(
        error(slot(file_kind(), true), nothing),
        Some(SlotError::NoHashes { slot: 0 })
    );
    assert_eq!(
        error(slot(SlotKind::Block { device: None }, true), stored(None)),
        Some(SlotError::AbsentDevice { slot: 0 })
    );
    let custom = slot(SlotKind::Custom { handler: vec![] }, true);
    assert_eq!(
        create_index(&custom, "s").err(),
        Some(SlotError::CustomSlot { slot: 0 })
    );
    assert_eq!(
        create_index(&custom, "x").err(),
        Some(SlotError::NotFound)
    );
    assert_eq!(
        create_index(&slot(file_kind(), false), "s"),
        Ok((0, "/s".to_owned()))
    );
}
