use indexmap::IndexMap;

use rugix_ctrl::script::{OnFailure, OsAction, OsStep, Progress, Script};
use rugix_ctrl::state::{merge, OverlayConfig, PersistConfig, StateConfig};
use rugix_ctrl::system::boot_groups::{BootGroup, BootGroups};
use rugix_ctrl::system::config::{validate, ConfigError, SystemConfig};
use rugix_ctrl::system::custom::{
    BootFlowCapabilities, CustomBootFlow, CustomFlowError, GroupOperation, OutputGroup, OutputNone,
    Query, RebootDecision, Reply,
};
use rugix_ctrl::system::data_partition::{
    resolve_driver, CustomDataPartitionDriverConfig, DataPartitionDriver,
    DataPartitionDriverConfig, DriverContext, DriverError, DriverFacts,
    Luks2PassphraseDriverConfig, Luks2Tpm2DriverConfig, PartitionConfig,
    PlaintextExt4DriverConfig, ResolvedDriver,
};
use rugix_ctrl::system::rauc::{
    grub_default_group, prioritize_boot_group, uboot_default_group, validate_group_names, BootEnv,
    BootFlowError, RaucGrub, RaucUboot,
};
use rugix_ctrl::system::slots::{Slot, SlotKind, SystemSlots};
use rugix_ctrl::system::systemd_boot::{
    decode_loader_variable, loader_variable_path, SystemdBootError, SystemdBootFlow,
};
use rugix_ctrl::system::{get_active_from_cmdline, System};

fn strings(values: &[&str]) -> Vec<String> {
    values.iter().map(|value| (*value).to_owned()).collect()
}

fn boot_env(values: &[(&str, &str)]) -> BootEnv {
    let mut env = BootEnv::new();
    for (key, value) in values {
        env.set((*key).to_owned(), (*value).to_owned());
    }
    env
}

fn order(text: &str) -> Vec<String> {
    text.split_whitespace().map(|name| name.to_owned()).collect()
}

#[test]
fn grub_default_follows_boot_order_and_group_state() {
    let cases = [
        ("A B", vec![("A_OK", "1"), ("A_TRY", "0")], Some("A")),
        ("B A", vec![("A_OK", "1"), ("A_TRY", "0")], Some("A")),
        ("A B", vec![("B_OK", "1"), ("B_TRY", "0")], Some("B")),
        (
            "B A",
            vec![("A_OK", "1"), ("A_TRY", "0"), ("B_OK", "1"), ("B_TRY", "0")],
            Some("B"),
        ),
        ("A B", vec![("A_OK", "1"), ("A_TRY", "1")], None),
    ];

    for (boot_order, values, expected) in cases {
        let env = boot_env(&values);
        assert_eq!(
            grub_default_group(&order(boot_order), &env, &strings(&["A", "B"])).as_deref(),
            expected
        );
    }
}

#[test]
fn uboot_default_covers_stable_trial_commit_rollback_and_invalid_states() {
    let cases = [
        (
            "A B",
            vec![("BOOT_A_LEFT", "3"), ("BOOT_B_LEFT", "0")],
            Some("A"),
        ),
        (
            "B A",
            vec![("BOOT_A_LEFT", "3"), ("BOOT_B_LEFT", "1")],
            Some("B"),
        ),
        (
            "B A",
            vec![("BOOT_A_LEFT", "3"), ("BOOT_B_LEFT", "3")],
            Some("B"),
        ),
        (
            "B A",
            vec![("BOOT_A_LEFT", "3"), ("BOOT_B_LEFT", "0")],
            Some("A"),
        ),
        ("UNKNOWN", vec![("BOOT_UNKNOWN_LEFT", "3")], None),
    ];

    for (boot_order, values, expected) in cases {
        let env = boot_env(&values);
        assert_eq!(
            uboot_default_group(&order(boot_order), &env, &strings(&["A", "B"])).as_deref(),
            expected
        );
    }
}

#[test]
fn selecting_and_committing_prioritizes_the_requested_group_once() {
    assert_eq!(prioritize_boot_group("A B", "B"), "B A");
    assert_eq!(prioritize_boot_group("B A", "B"), "B A");
    assert_eq!(prioritize_boot_group("A B C", "B"), "B A C");
}

#[test]
fn grub_default_ignores_unconfigured_groups() {
    let env = boot_env(&[("UNKNOWN_OK", "1"), ("UNKNOWN_TRY", "0")]);
    assert_eq!(
        grub_default_group(&order("UNKNOWN A"), &env, &strings(&["A", "B"])),
        None
    );
}

#[test]
fn grub_default_does_not_depend_on_configured_group_order() {
    let env = boot_env(&[("B_OK", "1"), ("B_TRY", "0")]);
    for configured_names in [["A", "B"], ["B", "A"]] {
        assert_eq!(
            grub_default_group(&order("A B"), &env, &strings(&configured_names)).as_deref(),
            Some("B")
        );
    }
}

#[test]
fn group_names_must_be_nonempty_and_unique() {
    assert!(validate_group_names(&strings(&["A", "B"]), 2).is_ok());
    assert_eq!(
        validate_group_names(&strings(&["A"]), 2),
        Err(BootFlowError::NameCount)
    );
    assert_eq!(
        validate_group_names(&strings(&["A", "B", "C"]), 2),
        Err(BootFlowError::NameCount)
    );
    assert_eq!(
        validate_group_names(&strings(&["A", "A"]), 2),
        Err(BootFlowError::DuplicateName)
    );
    assert_eq!(
        validate_group_names(&strings(&["A", "  "]), 2),
        Err(BootFlowError::EmptyName)
    );
}

fn groups(names: &[&str]) -> BootGroups {
    BootGroups {
        groups: names
            .iter()
            .map(|name| BootGroup {
                name: (*name).to_owned(),
                slots: vec![],
                active: false,
            })
            .collect(),
    }
}

fn apply(env: &mut BootEnv, changes: &BootEnv, names: &[&str]) {
    for name in names {
        if let Some(value) = changes.get(name) {
            env.set((*name).to_owned(), value);
        }
    }
}

#[test]
fn uboot_boots_the_selected_group() {
    let flow = RaucUboot::new(&groups(&["a", "ß"]), &None).unwrap();
    assert_eq!(flow.capabilities().userspace_failure_recovery, Some(true));
    let names = ["BOOT_ORDER", "BOOT_A_LEFT", "BOOT_SS_LEFT"];
    let mut env = boot_env(&[
        ("BOOT_ORDER", "A SS"),
        ("BOOT_A_LEFT", "3"),
        ("BOOT_SS_LEFT", "3"),
    ]);
    assert_eq!(flow.get_default(&env), Ok(0));
    if let Some(changes) = flow.set_try_next(&env, 1).unwrap() {
        apply(&mut env, &changes, &names);
    }
    assert_eq!(flow.get_default(&env), Ok(1));
    assert_eq!(env.get("BOOT_ORDER").as_deref(), Some("SS A"));
    let changes = flow.commit(&env, Some(0)).unwrap();
    apply(&mut env, &changes, &names);
    assert_eq!(flow.get_default(&env), Ok(0));
    let changes = flow.mark_bad(Some(1), 0).unwrap();
    apply(&mut env, &changes, &names);
    assert_eq!(flow.get_default(&env), Ok(1));
}

#[test]
fn grub_boots_the_selected_group() {
    let flow = RaucGrub::new(
        &groups(&["a", "b"]),
        &Some(strings(&["first", "second"])),
    )
    .unwrap();
    assert_eq!(flow.capabilities().userspace_failure_recovery, Some(true));
    let names = ["BOOT_ORDER", "first_OK", "first_TRY", "second_OK", "second_TRY"];
    let mut env = boot_env(&[
        ("BOOT_ORDER", "first second"),
        ("first_OK", "1"),
        ("first_TRY", "0"),
        ("second_OK", "0"),
        ("second_TRY", "0"),
    ]);
    assert_eq!(flow.get_default(&env), Ok(0));
    if let Some(changes) = flow.set_try_next(&env, 1).unwrap() {
        apply(&mut env, &changes, &names);
    }
    assert_eq!(flow.get_default(&env), Ok(1));
    let changes = flow.commit(&env, Some(1)).unwrap();
    apply(&mut env, &changes, &names);
    assert_eq!(flow.get_default(&env), Ok(1));
}

#[test]
fn boot_flows_refuse_what_they_cannot_do() {
    assert_eq!(
        RaucUboot::new(&groups(&["a"]), &None).err(),
        Some(BootFlowError::TooFewGroups)
    );
    let flow = RaucUboot::new(&groups(&["a", "b"]), &None).unwrap();
    let env = boot_env(&[]);
    assert_eq!(flow.get_default(&env), Err(BootFlowError::UnknownBootOrder));
    assert!(matches!(
        flow.set_try_next(&env, 7),
        Err(BootFlowError::UnknownBootOrder)
    ));
    let env = boot_env(&[("BOOT_ORDER", "A B")]);
    assert_eq!(flow.get_default(&env), Err(BootFlowError::UnknownDefault));
    assert!(matches!(
        flow.set_try_next(&env, 0),
        Err(BootFlowError::UnknownDefault)
    ));
    let grub = RaucGrub::new(&groups(&["a", "b"]), &None).unwrap();
    assert!(matches!(
        grub.set_try_next(&env, 1),
        Err(BootFlowError::UnknownDefault)
    ));
    let env = boot_env(&[("BOOT_ORDER", "A B"), ("BOOT_A_LEFT", "3")]);
    assert!(matches!(flow.set_try_next(&env, 0), Ok(None)));
    assert!(matches!(
        flow.set_try_next(&env, 7),
        Err(BootFlowError::InvalidGroup)
    ));
    assert!(matches!(
        flow.commit(&env, None),
        Err(BootFlowError::UnknownActiveGroup)
    ));
    assert!(matches!(
        flow.mark_bad(Some(1), 1),
        Err(BootFlowError::ActiveGroup)
    ));
}

#[test]
fn loader_variables_are_utf16() {
    let mut data = vec![6, 0, 0, 0];
    for unit in "entry-ä.conf".encode_utf16() {
        data.extend_from_slice(&unit.to_le_bytes());
    }
    data.extend_from_slice(&[0, 0]);
    assert_eq!(
        decode_loader_variable(&data).as_deref(),
        Some("entry-ä.conf")
    );
    assert_eq!(decode_loader_variable(&[1, 2, 3]), None);
    assert!(loader_variable_path("LoaderEntryDefault").contains("LoaderEntryDefault-"));
}

#[test]
fn systemd_boot_entries_stand_for_groups() {
    let mut config = IndexMap::new();
    config.insert("b".to_owned(), "b.conf".to_owned());
    config.insert("a".to_owned(), "a.conf".to_owned());
    let flow = SystemdBootFlow::new(&groups(&["a", "b"]), &config).unwrap();
    assert_eq!(flow.entries, [(1, "b.conf".to_owned()), (0, "a.conf".to_owned())]);
    assert_eq!(flow.get_default(Some("a.conf")), 0);
    assert_eq!(flow.get_default(None), 1);
    assert_eq!(flow.get_active(Some("b.conf")), Some(1));
    assert_eq!(flow.get_active(Some("c.conf")), None);
    let command = flow.set_try_next(0).unwrap();
    assert_eq!(command.last().map(|arg| arg.as_str()), Some("a.conf"));
    let command = flow.commit(Some(1)).unwrap();
    assert_eq!(command.last().map(|arg| arg.as_str()), Some("b.conf"));
    assert_eq!(flow.commit(None), Err(SystemdBootError::NoActiveGroup));
    assert_eq!(flow.set_try_next(2), Err(SystemdBootError::NoEntry));

    config.insert("c".to_owned(), "c.conf".to_owned());
    assert!(matches!(
        SystemdBootFlow::new(&groups(&["a", "b"]), &config),
        Err(SystemdBootError::UnknownGroup { index: 2 })
    ));
    let mut single = IndexMap::new();
    single.insert("a".to_owned(), "a.conf".to_owned());
    assert!(matches!(
        SystemdBootFlow::new(&groups(&["a", "b"]), &single),
        Err(SystemdBootError::TooFewEntries)
    ));
}

fn output<T>(text: &str, value: Option<T>) -> Reply<T> {
    Reply::Output {
        text: text.to_owned(),
        value,
    }
}

#[test]
fn custom_flows_answer_in_json() {
    let flow = CustomBootFlow {
        controller: "/usr/bin/flow".to_owned(),
    };
    let groups = groups(&["a", "b"]);
    assert_eq!(
        flow.group_command(GroupOperation::SetTryNext, "b"),
        strings(&["/usr/bin/flow", "set_try_next", "b"])
    );
    assert_eq!(
        flow.query_command(Query::GetDefault),
        strings(&["/usr/bin/flow", "get_default"])
    );
    let named = |name: &str| {
        output(
            "{}",
            Some(OutputGroup {
                group: name.to_owned(),
            }),
        )
    };
    assert_eq!(flow.get_default(&groups, &named("b")), Ok(1));
    assert_eq!(
        flow.get_default(&groups, &named("c")),
        Err(CustomFlowError::UnknownGroup)
    );
    assert_eq!(
        flow.get_default(&groups, &output("nonsense", None)),
        Err(CustomFlowError::InvalidOutput)
    );
    assert_eq!(
        flow.get_default(&groups, &Reply::Failed),
        Err(CustomFlowError::Failed)
    );
    assert_eq!(flow.get_active(&groups, &Reply::Failed), None);
    assert_eq!(flow.get_active(&groups, &named("a")), Some(0));
    assert_eq!(
        flow.completed(&output("{}", Some(OutputNone {}))),
        Ok(())
    );
    assert!(matches!(
        flow.reboot(&output("{}", Some(OutputNone {}))),
        Ok(RebootDecision::Handled)
    ));
    let unknown: Reply<BootFlowCapabilities> = Reply::Failed;
    assert_eq!(
        flow.capabilities(&unknown).userspace_failure_recovery,
        BootFlowCapabilities::default().userspace_failure_recovery
    );
}

fn partition(driver: Option<DataPartitionDriverConfig>, script: Option<&str>) -> PartitionConfig {
    PartitionConfig {
        partition: None,
        device: None,
        mount_script: script.map(|script| script.to_owned()),
        driver,
    }
}

fn plaintext() -> DataPartitionDriverConfig {
    DataPartitionDriverConfig::PlaintextExt4(PlaintextExt4DriverConfig {
        label: None,
        additional_options: None,
    })
}

#[test]
fn test_driver_and_mount_script_are_mutually_exclusive() {
    let config = SystemConfig {
        config_partition: None,
        data_partition: Some(partition(
            Some(plaintext()),
            Some("/usr/lib/example/mount"),
        )),
    };
    let err = validate(&config).expect_err("validation should reject the conflict");
    assert_eq!(err, ConfigError::DriverAndMountScript);
    let rendered = err.message();
    assert!(
        rendered.contains("mutually exclusive"),
        "expected mutual-exclusion error, got: {rendered}"
    );
}

#[test]
fn test_driver_rejected_on_config_partition() {
    let config = SystemConfig {
        config_partition: Some(partition(Some(plaintext()), None)),
        data_partition: None,
    };
    let err = validate(&config).expect_err("validation should reject config-partition driver");
    assert_eq!(err, ConfigError::ConfigPartitionDriver);
    let rendered = err.message();
    assert!(
        rendered.contains("config-partition"),
        "expected config-partition error, got: {rendered}"
    );
}

#[test]
fn other_partition_configurations_are_valid() {
    let config = SystemConfig {
        config_partition: Some(partition(None, None)),
        data_partition: Some(partition(Some(plaintext()), None)),
    };
    assert!(validate(&config).is_ok());
}

fn driver_facts() -> DriverFacts {
    DriverFacts {
        passphrase_present: true,
        mapper_present: false,
        key_path: "/run/key".to_owned(),
        entropy: vec![7; 32],
    }
}

fn driver_context() -> DriverContext {
    DriverContext::new("/dev/sda7".to_owned(), "/run/rugix/mounts/data".to_owned())
}

fn programs(steps: &[OsStep]) -> Vec<String> {
    steps
        .iter()
        .map(|step| match &step.action {
            OsAction::Run { args, .. } => args.join(" "),
            other => format!("{other:?}"),
        })
        .collect()
}

#[test]
fn encrypted_partitions_are_erased_before_they_are_formatted() {
    let driver = resolve_driver(partition(
        Some(DataPartitionDriverConfig::Luks2Passphrase(
            Luks2PassphraseDriverConfig {
                passphrase_file: "/run/pass".to_owned(),
                label: None,
                mapper_name: None,
                additional_mkfs_options: None,
            },
        )),
        None,
    ));
    assert!(matches!(driver, ResolvedDriver::Luks2Passphrase(_)));
    // The erase and the format each see to the device mapper.
    let plan = driver.wipe(&driver_context(), &driver_facts());
    let loads = plan
        .steps
        .iter()
        .filter(|step| match &step.action {
            OsAction::RunUnlessPresent { path, args } => {
                assert_eq!(args.join(" "), "/usr/bin/env modprobe dm_mod");
                assert_eq!(step.on_failure, OnFailure::Ignore);
                path == "/dev/mapper/control"
            }
            _ => false,
        })
        .count();
    assert_eq!(loads, 2);
    let erase = driver.erase(&driver_context()).steps;
    let format = driver.format(&driver_context(), &driver_facts()).steps;
    assert!(driver.formats_after_erase());
    assert_eq!(format!("{:?}", plan.steps), format!("{:?}", erase.into_iter().chain(format).collect::<Vec<_>>()));
    let wipe = programs(&driver.wipe(&driver_context(), &driver_facts()).steps);
    let erase = wipe.iter().position(|step| step.contains("luksErase") || step.contains("erase"));
    let format = wipe.iter().position(|step| step.contains("luksFormat"));
    assert!(erase.unwrap() < format.unwrap(), "{wipe:?}");

    let mut facts = driver_facts();
    facts.passphrase_present = false;
    assert_eq!(
        driver.format(&driver_context(), &facts).refusal,
        Some(DriverError::PassphraseMissing)
    );
}

#[test]
fn tpm_partitions_drop_their_passphrase() {
    let driver = resolve_driver(partition(
        Some(DataPartitionDriverConfig::Luks2Tpm2(Luks2Tpm2DriverConfig {
            device: None,
            pcrs: Some(vec![7, 11]),
            label: None,
            mapper_name: None,
            additional_mkfs_options: None,
        })),
        None,
    ));
    let format = driver.format(&driver_context(), &driver_facts());
    assert!(format.refusal.is_none());
    let steps = programs(&format.steps);
    assert!(steps.iter().any(|step| step.contains("systemd-cryptenroll")
        && step.contains("7+11")));
    assert!(steps
        .iter()
        .any(|step| step.contains("--wipe-slot=password") || step.contains("wipe-slot")));
}

#[test]
fn custom_drivers_run_their_scripts() {
    let driver = resolve_driver(partition(
        Some(DataPartitionDriverConfig::Custom(
            CustomDataPartitionDriverConfig {
                format_script: None,
                mount_script: "/mount.sh".to_owned(),
                wipe_script: None,
            },
        )),
        None,
    ));
    let mount = programs(&driver.mount(&driver_context(), &driver_facts()).steps);
    assert!(mount.iter().any(|step| step.starts_with("/mount.sh")));
    assert_eq!(
        driver.wipe(&driver_context(), &driver_facts()).refusal,
        Some(DriverError::NoWipeScript)
    );
    assert!(matches!(
        resolve_driver(partition(None, Some("/legacy.sh"))),
        ResolvedDriver::LegacyMountScript(_)
    ));
    assert!(matches!(
        resolve_driver(partition(None, None)),
        ResolvedDriver::PlaintextExt4(_)
    ));
}

fn step(name: &str, on_failure: OnFailure) -> OsStep {
    OsStep {
        action: OsAction::Run {
            args: vec![name.to_owned()],
            vars: vec![],
        },
        on_failure,
    }
}

#[test]
fn scripts_end_where_a_failure_counts() {
    let (mut script, progress) = Script::start(vec![
        step("a", OnFailure::Ignore),
        step("b", OnFailure::AfterNext),
        step("c", OnFailure::Abort),
        step("d", OnFailure::Abort),
    ]);
    assert_eq!(progress, Progress::Running);
    assert_eq!(script.next(false), Progress::Running);
    assert_eq!(programs(&[step("b", OnFailure::Abort)]), ["b"]);
    assert_eq!(script.next(false), Progress::Running);
    assert_eq!(script.next(true), Progress::Failed);
    let (mut script, _) = Script::start(vec![step("a", OnFailure::Abort)]);
    assert_eq!(script.next(true), Progress::Done);
    let (_, progress) = Script::start(vec![]);
    assert_eq!(progress, Progress::Done);
}

fn block_slot(name: &str, device: Option<&str>) -> Slot {
    Slot {
        name: name.to_owned(),
        kind: SlotKind::Block {
            device: device.map(|device| device.to_owned()),
        },
        active: false,
        immutable: true,
    }
}

fn two_groups() -> (SystemSlots, BootGroups) {
    let slots = SystemSlots {
        slots: vec![
            block_slot("system-a", Some("/dev/sda4")),
            block_slot("system-b", Some("/dev/sda5")),
        ],
    };
    let mut groups = groups(&["a", "b"]);
    groups.groups[0].slots = vec![("system".to_owned(), 0)];
    groups.groups[1].slots = vec![("system".to_owned(), 1)];
    (slots, groups)
}

#[test]
fn active_group_is_found() {
    let (slots, groups) = two_groups();
    let system = System::initialize(
        slots,
        groups,
        Some("quiet rugix.boot_group=b"),
        || -> Result<Option<usize>, ()> { Ok(Some(0)) },
        &None,
    )
    .unwrap();
    assert_eq!(system.active_boot_entry, Some(1));
    assert!(system.slots.slots[1].active && !system.slots.slots[0].active);
    assert!(!system.needs_commit(1));
    assert!(system.needs_commit(0));
    assert_eq!(system.spare_entry(1), Some(0));

    let (slots, groups) = two_groups();
    let system = System::initialize(
        slots,
        groups,
        None,
        || -> Result<Option<usize>, ()> { Ok(None) },
        &Some("/dev/sda4".to_owned()),
    )
    .unwrap();
    assert_eq!(system.active_boot_entry, Some(0));

    let (slots, groups) = two_groups();
    assert!(System::initialize(
        slots,
        groups,
        None,
        || -> Result<Option<usize>, &str> { Err("no answer") },
        &None
    )
    .is_err());
    let (_, groups) = two_groups();
    assert_eq!(
        get_active_from_cmdline("rugix.boot_group=x rugix.boot_group=a", &groups),
        None
    );
}

#[test]
fn state_settings_accumulate() {
    let mut target = StateConfig::new();
    target.overlay = Some(OverlayConfig::Discard);
    let mut other = StateConfig::new();
    other.overlay = Some(OverlayConfig::Persist);
    other.persist = Some(vec![PersistConfig::Directory {
        directory: "/var".to_owned(),
    }]);
    merge(&mut target, other);
    assert_eq!(target.overlay, Some(OverlayConfig::Discard));
    assert_eq!(target.persist.unwrap().len(), 1);
}

#[test]
fn boot_variables_are_listed_once() {
    let mut env = boot_env(&[("BOOT_ORDER", "A B"), ("BOOT_A_LEFT", "3")]);
    env.set("BOOT_A_LEFT".to_owned(), "1".to_owned());
    let mut entries = env.entries();
    entries.sort();
    assert_eq!(
        entries,
        vec![
            ("BOOT_A_LEFT".to_owned(), "1".to_owned()),
            ("BOOT_ORDER".to_owned(), "A B".to_owned()),
        ]
    );
    assert!(BootEnv::new().entries().is_empty());
}
