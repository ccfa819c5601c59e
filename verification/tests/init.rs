use std::cell::Cell;

use rugix_ctrl::init::bootstrap::{
    choose_schema, data_partition_is_new, format_data_partition_if_new, plan_formats, Bootstrap,
    BootstrapAction, BootstrapConfig, BootstrapEvent, BootstrapFacts, Ext4Filesystem, FormatKind,
    FormatStep, LayoutPartition, SchemaChoice, SystemLayout, TableType,
};
use rugix_ctrl::init::error_shell::{
    after_read, after_wait, parse_shell_on_error_timeout, prompt_on_init_error, ConsoleRead,
    ConsoleWait, KeyDecision, Prompt, DEFAULT_SHELL_ON_ERROR_TIMEOUT_SECS,
};
use rugix_ctrl::init::handoff::{
    exec_chroot_init, machine_id_plan, requires_commit_value, restore_machine_id, HandoffStep,
};
use rugix_ctrl::init::overlay::{
    setup_root_overlay_once, OverlayAction, OverlayFacts, OverlaySetup,
};
use rugix_ctrl::init::persist::{
    entry_paths, plan_entry, PathKind, PersistAction, PersistError, PersistProbe, PersistSetup,
};
use rugix_ctrl::init::state_setup::{
    default_state_dir, resolve_backup, DeferredAction, DeferredEvent, DeferredReboot, StateAction,
    StateError, StateEvent, StateSetup,
};
use rugix_ctrl::init::{
    choose_config_partition, compute_search_path, init_quiet, merge_search_path, mount_readonly,
    remount, should_exec_underlying_init_after_error, state_dir, ConfigPartitionChoice, Essential,
    Init, InitAction, InitError, InitEvent,
};
use rugix_ctrl::script::{OsAction, OsStep};
use rugix_ctrl::state::{OverlayConfig, OverlayFallbackConfig, PersistConfig};
use rugix_ctrl::system::data_partition::PartitionConfig;
use rugix_ctrl::time::Duration;

#[test]
fn shell_on_error_is_disabled_by_default() {
    assert_eq!(parse_shell_on_error_timeout("quiet splash"), None);
}

#[test]
fn shell_on_error_accepts_bare_flag() {
    assert_eq!(
        parse_shell_on_error_timeout("quiet rugix.init.shell_on_error splash"),
        Some(Duration::from_secs(DEFAULT_SHELL_ON_ERROR_TIMEOUT_SECS))
    );
}

#[test]
fn shell_on_error_accepts_boolean_values() {
    assert_eq!(
        parse_shell_on_error_timeout("rugix.init.shell_on_error=true"),
        Some(Duration::from_secs(DEFAULT_SHELL_ON_ERROR_TIMEOUT_SECS))
    );
    assert_eq!(
        parse_shell_on_error_timeout("rugix.init.shell_on_error=off"),
        None
    );
}

#[test]
fn shell_on_error_accepts_custom_timeout() {
    assert_eq!(
        parse_shell_on_error_timeout("rugix.init.shell_on_error=60"),
        Some(Duration::from_secs(60))
    );
}

#[test]
fn shell_on_error_rejects_invalid_timeout() {
    assert_eq!(
        parse_shell_on_error_timeout("rugix.init.shell_on_error=later"),
        None
    );
}

#[test]
fn shell_prompt_is_opt_in() {
    assert!(matches!(
        prompt_on_init_error(Some("quiet")),
        Prompt::Disabled { .. }
    ));
    assert!(matches!(
        prompt_on_init_error(None),
        Prompt::Disabled { .. }
    ));
    let Prompt::Wait { timeout, .. } = prompt_on_init_error(Some("rugix.init.shell_on_error=7"))
    else {
        panic!("the shell is enabled");
    };
    assert_eq!(timeout, Duration::from_secs(7));
}

#[test]
fn keys_start_the_shell() {
    assert_eq!(after_wait(ConsoleWait::TimedOut), KeyDecision::GoOn);
    assert_eq!(
        after_wait(ConsoleWait::Ready { input: true }),
        KeyDecision::Read
    );
    assert_eq!(after_read(ConsoleRead::Key), KeyDecision::StartShell);
    assert_eq!(after_read(ConsoleRead::Failed), KeyDecision::Fail);
}

fn format(numbers: &Vec<u8>, index: u32, formats: &Cell<u32>) {
    format_data_partition_if_new(numbers, index, || -> Result<(), ()> {
        formats.set(formats.get() + 1);
        Ok(())
    })
    .unwrap();
}

#[test]
fn new_default_gpt_data_partition_is_detected() {
    let table: Vec<u8> = (1..=5).collect();
    let formats = Cell::new(0);
    format(&table, 6, &formats);

    assert!(data_partition_is_new(&table, 6));
    assert_eq!(formats.get(), 1);
}

#[test]
fn existing_default_gpt_data_partition_is_not_new() {
    let table: Vec<u8> = (1..=6).collect();
    let formats = Cell::new(0);
    format(&table, 6, &formats);

    assert!(!data_partition_is_new(&table, 6));
    assert_eq!(formats.get(), 0);
}

#[test]
fn configured_data_partition_is_found_by_number_across_gaps() {
    let table: Vec<u8> = vec![1, 2, 4, 8];
    assert!(!data_partition_is_new(&table, 8));
    assert!(data_partition_is_new(&table, 6));
}

#[test]
fn default_mbr_data_partition_is_detected_by_number() {
    let mut table: Vec<u8> = (1..=7).collect();
    let formats = Cell::new(0);
    format(&table, 7, &formats);
    assert!(!data_partition_is_new(&table, 7));
    assert_eq!(formats.get(), 0);

    table.retain(|number| *number != 7);
    format(&table, 7, &formats);
    assert!(data_partition_is_new(&table, 7));
    assert_eq!(formats.get(), 1);
}

#[test]
fn schemas_follow_the_table() {
    assert_eq!(
        choose_schema(&SystemLayout::Usual { system_size: 1 }, TableType::Gpt),
        SchemaChoice::GenericEfi { system_size: 1 }
    );
    assert_eq!(
        choose_schema(&SystemLayout::Usual { system_size: 1 }, TableType::Mbr),
        SchemaChoice::GenericMbr { system_size: 1 }
    );
    assert_eq!(
        choose_schema(&SystemLayout::Unchanged, TableType::Gpt),
        SchemaChoice::Unchanged
    );
    assert_eq!(
        choose_schema(&SystemLayout::Gpt(vec![]), TableType::Gpt),
        SchemaChoice::Listed
    );
}

fn bootstrap_facts(has_driver: bool) -> BootstrapFacts {
    BootstrapFacts {
        table: TableType::Gpt,
        data_partition: None,
        has_driver,
    }
}

#[test]
fn only_new_partitions_are_formatted() {
    let partition = |ext4: bool| LayoutPartition {
        name: None,
        size: None,
        ty: None,
        filesystem: if ext4 {
            Some(Ext4Filesystem {
                label: None,
                additional_options: None,
            })
        } else {
            None
        },
    };
    let layout = SystemLayout::Gpt(vec![partition(true), partition(false), partition(true)]);
    assert_eq!(
        plan_formats(&layout, &vec![1], &bootstrap_facts(false)),
        vec![FormatStep {
            partition: 3,
            kind: FormatKind::Filesystem { index: 2 }
        }]
    );
    assert_eq!(
        plan_formats(&layout, &vec![1, 2, 3], &bootstrap_facts(false)),
        vec![]
    );
}

#[test]
fn bootstrapping_formats_the_data_partition() {
    let (mut bootstrap, action) = Bootstrap::begin(bootstrap_facts(true));
    assert!(matches!(action, BootstrapAction::LoadHooks));
    let mut step = |event: BootstrapEvent| bootstrap.next(event);
    assert!(matches!(
        step(BootstrapEvent::Done),
        BootstrapAction::RunPrepare
    ));
    assert!(matches!(
        step(BootstrapEvent::Done),
        BootstrapAction::LoadConfig
    ));
    let config = BootstrapConfig {
        disabled: None,
        layout: None,
    };
    assert!(matches!(
        step(BootstrapEvent::Config(config)),
        BootstrapAction::RunPreLayout
    ));
    assert!(matches!(
        step(BootstrapEvent::Done),
        BootstrapAction::ReadTable
    ));
    assert!(matches!(
        step(BootstrapEvent::Table(vec![1, 2, 3])),
        BootstrapAction::ComputeTable(SchemaChoice::GenericEfi {
            system_size: 4294967296
        })
    ));
    assert!(matches!(
        step(BootstrapEvent::Computed { changed: true }),
        BootstrapAction::WriteTable
    ));
    assert!(matches!(step(BootstrapEvent::Done), BootstrapAction::Sync));
    assert!(matches!(
        step(BootstrapEvent::Done),
        BootstrapAction::UpdateKernel
    ));
    assert!(matches!(
        step(BootstrapEvent::Done),
        BootstrapAction::Format(FormatStep {
            partition: 6,
            kind: FormatKind::Driver
        })
    ));
    assert!(matches!(
        step(BootstrapEvent::Done),
        BootstrapAction::RunPostLayout
    ));
    assert!(matches!(step(BootstrapEvent::Done), BootstrapAction::Done));
}

fn words(step: &OsStep) -> Vec<String> {
    match &step.action {
        OsAction::Run { args, .. } => args.clone(),
        other => vec![format!("{other:?}")],
    }
}

#[test]
fn search_path_covers_the_usual_directories() {
    assert_eq!(state_dir(), "/run/rugix/state");
    assert_eq!(
        compute_search_path(Some("/custom/bin:/bin")),
        "/usr/local/sbin:/usr/local/bin:/usr/sbin:/usr/bin:/sbin:/custom/bin:/bin"
    );
    assert_eq!(
        compute_search_path(None),
        "/usr/local/sbin:/usr/local/bin:/usr/sbin:/usr/bin:/sbin:/bin"
    );
    let merged = merge_search_path(vec!["/bin".to_owned()]);
    assert_eq!(merged.iter().filter(|dir| *dir == "/bin").count(), 1);
}

#[test]
fn quiet_is_a_parameter_of_its_own() {
    assert!(init_quiet("root=/dev/sda1 rugix.init.quiet") || init_quiet("quiet"));
    assert!(!init_quiet("root=/dev/sda1"));
}

#[test]
fn mounts_are_commands() {
    let args = words(&mount_readonly("/dev/sda1", "/mnt"));
    assert!(args.contains(&"/dev/sda1".to_owned()) && args.contains(&"/mnt".to_owned()));
    assert_ne!(words(&remount("/mnt", true)), words(&remount("/mnt", false)));
    assert_eq!(Essential::Proc.path(), "/proc");
}

#[test]
fn underlying_init_is_a_last_resort() {
    assert!(should_exec_underlying_init_after_error(true, None));
    assert!(should_exec_underlying_init_after_error(true, Some(false)));
    assert!(!should_exec_underlying_init_after_error(true, Some(true)));
    assert!(!should_exec_underlying_init_after_error(false, None));
}

#[test]
fn config_partition_is_chosen() {
    let config = |partition: Option<u32>, device: Option<&str>| {
        Some(PartitionConfig {
            partition,
            device: device.map(|device| device.to_owned()),
            mount_script: None,
            driver: None,
        })
    };
    assert_eq!(
        choose_config_partition(&config(Some(3), None)),
        ConfigPartitionChoice::Number(3)
    );
    assert_eq!(
        choose_config_partition(&config(None, Some("/dev/sdb1"))),
        ConfigPartitionChoice::Device
    );
}

fn run_init(events: &dyn Fn(InitAction) -> Option<InitEvent>) -> Vec<InitAction> {
    let (mut init, mut action) = Init::begin();
    let mut trace = vec![action];
    while let Some(event) = events(action) {
        action = init.next(event);
        trace.push(action);
        assert!(trace.len() < 100);
    }
    trace
}

fn usual(action: InitAction) -> Option<InitEvent> {
    match action {
        InitAction::ProbeMounted(_) => Some(InitEvent::Mounted(true)),
        InitAction::LoadConfig => Some(InitEvent::Config(ConfigPartitionChoice::Number(1))),
        InitAction::ProbeMarkers => Some(InitEvent::Markers {
            dotted: false,
            plain: false,
            wipe: true,
        }),
        InitAction::QueryDefault => Some(InitEvent::Groups {
            default: Some(0),
            active: Some(1),
        }),
        InitAction::Done | InitAction::Fail(_) => None,
        _ => Some(InitEvent::Done),
    }
}

#[test]
fn failed_wipes_keep_their_marker() {
    let wiped = run_init(&usual);
    assert!(wiped.contains(&InitAction::WipeData));
    assert!(wiped.contains(&InitAction::RemoveWipeMarker));
    assert!(wiped.contains(&InitAction::SetupState {
        requires_commit: true
    }));

    let failed = run_init(&|action| match action {
        InitAction::WipeData => Some(InitEvent::Failed),
        other => usual(other),
    });
    assert!(failed.contains(&InitAction::WipeData));
    assert!(!failed.contains(&InitAction::RemoveWipeMarker));
}

#[test]
fn missing_system_device_is_fatal() {
    let trace = run_init(&|action| match action {
        InitAction::FindDevice => Some(InitEvent::NotFound),
        other => usual(other),
    });
    assert_eq!(
        trace.last(),
        Some(&InitAction::Fail(InitError::NoSystemDevice))
    );
}

fn overlay_facts(state_profile: &str, force_persist: bool) -> OverlayFacts {
    OverlayFacts {
        system: "/run/rugix/mounts/system".to_owned(),
        state_profile: state_profile.to_owned(),
        force_persist,
        active_group: Some("a".to_owned()),
    }
}

#[test]
fn overlays_are_discarded_unless_forced() {
    let removes = |mode: OverlayConfig, force: bool| {
        let (steps, _) = setup_root_overlay_once(mode, &overlay_facts("/state", force));
        steps.iter().any(|step| {
            matches!(
                &step.action,
                OsAction::RemoveDirAll { path } | OsAction::RemoveDirAllIfPresent { path }
                    if path.starts_with("/state/overlay")
            )
        })
    };
    assert!(removes(OverlayConfig::Discard, false));
    assert!(!removes(OverlayConfig::Discard, true));
    assert!(!removes(OverlayConfig::Persist, false));
    assert!(!removes(OverlayConfig::InMemory, false));
}

#[test]
fn failed_overlays_fall_back_to_memory() {
    let (mut setup, action) = OverlaySetup::setup_root_overlay(
        Some(OverlayConfig::Persist),
        Some(OverlayFallbackConfig::InMemory),
    );
    assert_eq!(action, OverlayAction::Attempt(OverlayConfig::Persist));
    let mut action = setup.next(false);
    if action == OverlayAction::WriteFallbackError {
        action = setup.next(true);
    }
    assert_eq!(action, OverlayAction::Attempt(OverlayConfig::InMemory));

    let (mut setup, _) = OverlaySetup::setup_root_overlay(Some(OverlayConfig::Persist), None);
    assert_eq!(
        setup.next(false),
        OverlayAction::Fail {
            with_fallback: false
        }
    );
}

#[test]
fn kept_files_are_bound_and_not_overwritten() {
    let file = PersistConfig::File {
        file: "/etc/hostname".to_owned(),
        default: Some("rugix".to_owned()),
    };
    let (system, state) = entry_paths(&file, "/root", "/state");
    assert_eq!(system, "/root/etc/hostname");
    assert_eq!(state, "/state/persist/etc/hostname");
    let kept = plan_entry(
        &file,
        "/root",
        "/state",
        PersistProbe {
            system: PathKind::File,
            state: PathKind::File,
        },
    );
    assert!(kept.refusal.is_none());
    assert!(kept.steps.iter().all(|step| !matches!(
        &step.action,
        OsAction::WriteFile { path, .. } if path == "/state/persist/etc/hostname"
    )));
    let fresh = plan_entry(
        &file,
        "/root",
        "/state",
        PersistProbe {
            system: PathKind::Nothing,
            state: PathKind::Nothing,
        },
    );
    assert!(fresh.steps.iter().any(|step| matches!(
        &step.action,
        OsAction::WriteFile { path, text }
            if path == "/state/persist/etc/hostname" && text == "rugix"
    )));
    let directory = PersistConfig::Directory {
        directory: "/var".to_owned(),
    };
    let refused = plan_entry(
        &directory,
        "/root",
        "/state",
        PersistProbe {
            system: PathKind::File,
            state: PathKind::File,
        },
    );
    assert_eq!(refused.refusal, Some(PersistError::NotADirectory));
}

#[test]
fn entries_are_set_up_one_after_the_other() {
    let (mut setup, action) = PersistSetup::setup_persistent_state(2);
    assert_eq!(action, PersistAction::CreateProfile);
    assert_eq!(setup.next(true), PersistAction::SetUpEntry { index: 0 });
    assert_eq!(setup.next(true), PersistAction::SetUpEntry { index: 1 });
    assert_eq!(setup.next(true), PersistAction::Done);
}

#[test]
fn machine_ids_are_kept_or_made() {
    let made = restore_machine_id("/root", false);
    let text = made
        .iter()
        .find_map(|step| match &step.action {
            OsAction::WriteFile { text, .. } => Some(text.clone()),
            _ => None,
        })
        .unwrap();
    let id = text.trim();
    assert_eq!(id.len(), 32);
    assert!(id.chars().all(|c| c.is_ascii_hexdigit()));
    let other = restore_machine_id("/root", false);
    assert_ne!(format!("{made:?}"), format!("{other:?}"));
    assert_eq!(
        format!("{:?}", restore_machine_id("/root", true)),
        format!("{:?}", machine_id_plan("/root", true, "unused"))
    );
}

#[test]
fn handoff_ends_in_init() {
    let steps = exec_chroot_init("/run/rugix/mounts/system", true);
    assert_eq!(steps.last(), Some(&HandoffStep::ExecInit));
    assert!(steps.contains(&HandoffStep::RunPostInit {
        requires_commit: true
    }));
    assert!(steps.contains(&HandoffStep::PivotRoot));
    let root = exec_chroot_init("/", false);
    assert_eq!(root.last(), Some(&HandoffStep::ExecInit));
    assert_ne!(requires_commit_value(true), requires_commit_value(false));
}

#[test]
fn resets_move_or_remove_the_state() {
    assert_eq!(default_state_dir(), "/run/rugix/mounts/data/state/default");
    assert_eq!(resolve_backup(&None), None);
    assert_eq!(resolve_backup(&Some("  \n".to_owned())), None);
    assert_eq!(
        resolve_backup(&Some("before".to_owned())).as_deref(),
        Some("/run/rugix/mounts/data/state/before")
    );
    for (flag, expected) in [
        (Some("before"), StateAction::MoveProfile),
        (Some(""), StateAction::RemoveProfile),
        (None, StateAction::RemoveProfile),
    ] {
        let (mut setup, mut action) = StateSetup::begin();
        let mut trace = vec![action];
        while !matches!(action, StateAction::Done | StateAction::Fail(_)) {
            let event = match action {
                StateAction::LoadStateConfig => StateEvent::Config {
                    overlay: Some(OverlayConfig::Persist),
                },
                StateAction::ProbeReset => StateEvent::Reset(true),
                StateAction::ReadResetFlag => {
                    StateEvent::Flag(flag.map(|flag: &str| flag.to_owned()))
                }
                _ => StateEvent::Done,
            };
            action = setup.next(event);
            trace.push(action);
            assert!(trace.len() < 100);
        }
        assert!(trace.contains(&expected), "{trace:?}");
        assert!(trace.contains(&StateAction::ExecInit));
    }
}

#[test]
fn failed_data_mounts_are_survived() {
    let (mut setup, mut action) = StateSetup::begin();
    while action != StateAction::MountData {
        action = setup.next(StateEvent::Done);
    }
    assert_eq!(
        setup.next(StateEvent::Failed),
        StateAction::CreateMountErrorDir
    );
    assert_eq!(setup.next(StateEvent::Done), StateAction::WriteMountError);
    assert_eq!(setup.next(StateEvent::Failed), StateAction::LoadStateConfig);

    let (mut setup, mut action) = StateSetup::begin();
    while action != StateAction::FindDataPartition {
        action = setup.next(StateEvent::Done);
    }
    assert_eq!(
        setup.next(StateEvent::NotFound),
        StateAction::Fail(StateError::NoDataPartition)
    );
}

#[test]
fn deferred_reboots_clear_their_flag_first() {
    let (mut check, action) = DeferredReboot::check_deferred_spare_reboot();
    assert_eq!(action, DeferredAction::ProbeFlag);
    assert_eq!(
        check.next(DeferredEvent::Flag(true)),
        DeferredAction::ClearFlag
    );
    let mut action = check.next(DeferredEvent::Done);
    let mut trace = vec![action];
    while !matches!(action, DeferredAction::Done | DeferredAction::Fail) {
        action = check.next(match action {
            DeferredAction::QueryCommit => DeferredEvent::NeedsCommit(false),
            DeferredAction::FindSpare => DeferredEvent::Spare(Some(1)),
            _ => DeferredEvent::Done,
        });
        trace.push(action);
        assert!(trace.len() < 50);
    }
    assert!(trace.contains(&DeferredAction::SetTryNext { group: 1 }));
    assert!(trace.contains(&DeferredAction::Reboot));

    let (mut check, _) = DeferredReboot::check_deferred_spare_reboot();
    assert_eq!(check.next(DeferredEvent::Flag(false)), DeferredAction::Done);
}

#[test]
fn ignored_errors_leave_nothing() {
    let ok: Result<u8, &str> = Ok(3);
    let failed: Result<u8, &str> = Err("no space left");
    assert_eq!(rugix_ctrl::init::log_ignored_error(ok), Some(3));
    assert_eq!(rugix_ctrl::init::log_ignored_error(failed), None);
}
