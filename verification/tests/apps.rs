use std::cell::{Cell, RefCell};

use rugix_ctrl::apps::activation::{latest_activation, LastActivation};
use rugix_ctrl::apps::lifecycle::{
    Action, AppState, FailedStep, Record, Recovery, Switch, Workload,
};
use rugix_ctrl::apps::manager::{
    removed_generations, AppEntry, AppGeneration, AppManager, AppsError, GenerationEntry,
    RemovalStep, ResolvedGeneration, StateFile, StateFileError, StatusQuery,
};
use rugix_ctrl::apps::recover_all::RecoverAllAction;
use rugix_ctrl::apps::restore::{
    units_dir, Restore, RestoreAction, RestoreFailure, UnitAction, UnitEntry, UnitEvent,
    UnitRestore,
};
use rugix_ctrl::apps::systemd::{
    active_status, daemon_reload, disable_runtime, enable_runtime, is_active, run_with,
    runtime_units_dir, start, start_no_block, stop, SystemctlError,
};
use rugix_ctrl::cli::apps::{
    gc_apps, index_file, index_generation, index_paths, AppCommand, AppCommandRun, CommandAction,
    CommandError, CommandEvent, IndexError, DEFAULT_KEEP,
};
use rugix_ctrl::operations::apps::{
    list_apps, list_generations, query_app, resolve_app_status, AppFacts, AppStatus, QueryApp,
};

fn manager() -> AppManager {
    AppManager::new("/data/apps".to_owned(), "systemd".to_owned())
}

#[test]
fn invalid_app_names_are_rejected_before_lock_paths_are_created() {
    assert_eq!(
        manager().lock_paths("../escape").unwrap_err(),
        AppsError::InvalidAppName
    );
    let (dir, file) = manager().lock_paths("app").unwrap();
    assert_eq!(dir, "/data/apps/app/.rugix");
    assert_eq!(file, "/data/apps/app/.rugix/lock");
}

#[test]
fn systemctl_failures_are_not_reported_as_success() {
    assert!(run_with(&["enable", "--runtime", "app.service"], |_| Ok::<bool, ()>(false)).is_err());
    assert!(run_with(&["enable", "--runtime", "app.service"], |_| Ok::<bool, ()>(true)).is_ok());
}

#[test]
fn systemctl_is_run_with_the_arguments_of_the_operation() {
    let seen = RefCell::new(Vec::new());
    let execute = |args: &Vec<String>| -> Result<bool, ()> {
        seen.borrow_mut().push(args.join(" "));
        Ok(true)
    };
    daemon_reload(&execute).unwrap();
    enable_runtime("a.service", &execute).unwrap();
    disable_runtime("a.service", &execute).unwrap();
    start("a.service", &execute).unwrap();
    start_no_block("a.service", &execute).unwrap();
    stop("a.service", &execute).unwrap();
    assert_eq!(
        *seen.borrow(),
        [
            "daemon-reload",
            "enable --runtime a.service",
            "disable --runtime a.service",
            "start a.service",
            "start --no-block a.service",
            "stop a.service"
        ]
    );
    assert_eq!(runtime_units_dir(), "/run/systemd/system");
    assert_eq!(is_active("a.service"), ["is-active", "a.service"]);
    assert_eq!(active_status("inactive\n"), "inactive");
    let failed = stop("a.service", |_| Ok::<bool, ()>(false)).unwrap_err();
    assert!(matches!(
        failed,
        SystemctlError::Failed { message } if message == "systemctl stop a.service failed"
    ));
    let not_run = stop("a.service", |_| Err("missing")).unwrap_err();
    assert!(matches!(not_run, SystemctlError::NotRun("missing")));
}

#[test]
fn app_paths_lie_below_the_apps_directory() {
    let manager = manager();
    assert_eq!(
        manager.generation_dir("app", 12),
        "/data/apps/app/generations/12"
    );
    assert_eq!(manager.data_dir("app"), "/data/apps/app/data");
    assert_eq!(
        manager.state_path("app"),
        "/data/apps/app/.rugix/state.json"
    );
    let probed = RefCell::new(String::new());
    assert!(AppManager::is_complete("/g", |path| {
        probed.borrow_mut().push_str(path);
        true
    }));
    assert_eq!(*probed.borrow(), "/g/.rugix/complete");
}

fn generation(number: u64, last_activated: Option<&str>) -> ResolvedGeneration {
    ResolvedGeneration {
        meta: AppGeneration {
            number,
            created_at: format!("created {number}"),
            last_activated: last_activated.map(|time| time.to_owned()),
        },
        complete: true,
    }
}

fn entry(name: &str) -> AppEntry {
    AppEntry {
        name: Some(name.to_owned()),
        is_dir: true,
    }
}

#[test]
fn apps_are_the_directories_in_order() {
    let mut file = entry("file");
    file.is_dir = false;
    let entries = vec![entry("b"), file, entry("a")];
    assert_eq!(AppManager::list_apps(&entries), ["a", "b"]);
}

#[test]
fn all_apps_are_tried_after_a_boot() {
    let entries = vec![entry("c"), entry("b"), entry("a")];
    let (apps, mut recovery, mut action) = AppManager::recover_all(&entries);
    assert_eq!(apps, ["a", "b", "c"]);
    let mut trace = Vec::new();
    while action != RecoverAllAction::Done {
        trace.push(action);
        // The first app cannot be recovered, and the second cannot be locked.
        let ok = !matches!(
            action,
            RecoverAllAction::Recover { app: 0 } | RecoverAllAction::Lock { app: 1 }
        );
        action = recovery.next(ok);
    }
    assert_eq!(
        trace,
        [
            RecoverAllAction::Lock { app: 0 },
            RecoverAllAction::Recover { app: 0 },
            RecoverAllAction::Lock { app: 1 },
            RecoverAllAction::Lock { app: 2 },
            RecoverAllAction::Recover { app: 2 },
        ]
    );
    assert_eq!(
        AppManager::recover_all(&vec![]).2,
        RecoverAllAction::Done
    );
}

#[test]
fn marking_a_generation_completes_no_other() {
    let manager = manager();
    let marker = AppManager::complete_marker(&manager.generation_dir("app", 1));
    let is_complete = |app: &str, number: u64| {
        AppManager::is_complete(&manager.generation_dir(app, number), |path| path == marker)
    };
    assert!(is_complete("app", 1));
    assert!(!is_complete("app", 11));
    assert!(!is_complete("other", 1));
}

#[test]
fn generations_are_numbered_upwards() {
    let names = vec![
        Some("2".to_owned()),
        None,
        Some("10".to_owned()),
        Some("x".to_owned()),
    ];
    assert_eq!(AppManager::next_generation_number(&names), 11);
    assert_eq!(AppManager::next_generation_number(&vec![]), 1);
    assert_eq!(
        manager().create_generation("app", &names),
        Ok((11, "/data/apps/app/generations/11".to_owned()))
    );
    assert_eq!(
        manager().create_generation("a/b", &names),
        Err(AppsError::InvalidAppName)
    );
}

#[test]
fn generations_are_listed_in_order() {
    let entry = |name: &str, complete: bool| GenerationEntry {
        name: Some(name.to_owned()),
        complete,
        meta: None,
    };
    let list = AppManager::list_generations(vec![
        entry("10", true),
        entry("2", false),
        entry("other", true),
    ]);
    let numbers: Vec<(u64, bool)> = list
        .iter()
        .map(|generation| (generation.meta.number, generation.complete))
        .collect();
    assert_eq!(numbers, [(2, false), (10, true)]);
}

#[test]
fn states_default_to_inactive() {
    assert!(matches!(
        AppManager::read_state(StateFile::Missing),
        Ok(AppState::Inactive)
    ));
    assert!(matches!(
        AppManager::read_state(StateFile::Unparsable),
        Err(StateFileError::Unparsable)
    ));
    assert!(matches!(
        AppManager::read_state(StateFile::Unreadable),
        Err(StateFileError::Unreadable)
    ));
    assert!(matches!(
        AppManager::read_state(StateFile::Parsed(AppState::Active { generation: 1 })),
        Ok(AppState::Active { generation: 1 })
    ));
}

#[test]
fn active_generation_is_that_of_a_settled_or_working_app() {
    assert_eq!(
        AppManager::current_generation(&AppState::Active { generation: 3 }),
        Some(3)
    );
    assert_eq!(
        AppManager::current_generation(&AppState::Stopping { generation: 4 }),
        Some(4)
    );
    assert_eq!(
        AppManager::current_generation(&AppState::Switching {
            from: Some(1),
            to: Some(2),
            recovery: None
        }),
        None
    );
}

#[test]
fn status_is_asked_only_of_active_apps() {
    assert!(matches!(
        manager().app_status("app", &AppState::Inactive, false),
        StatusQuery::Stopped
    ));
    let StatusQuery::Ask { context } =
        manager().app_status("app", &AppState::Active { generation: 2 }, true)
    else {
        panic!("the orchestrator is asked");
    };
    assert_eq!(context.generation_dir, "/data/apps/app/generations/2");
    assert_eq!(context.service_manager, "systemd");
}

#[test]
fn last_activation_decides() {
    let generations = vec![
        generation(1, Some("2024-01-02T00:00:00Z")),
        generation(2, Some("2024-01-03T00:00:00Z")),
        generation(3, None),
        generation(4, Some("2023-01-01T00:00:00Z")),
    ];
    assert_eq!(
        AppManager::last_activated_generation(&generations),
        Some(2)
    );
    assert_eq!(
        AppManager::last_activated_generation(&vec![generation(1, None)]),
        None
    );
}

#[test]
fn activations_are_ordered_by_instants() {
    let last = |times: &[&str]| {
        let generations = times
            .iter()
            .enumerate()
            .map(|(i, time)| generation(i as u64 + 1, Some(*time)))
            .collect();
        AppManager::last_activated_generation(&generations)
    };
    assert_eq!(last(&["2024-01-01T00:00:00.5Z", "2024-01-01T00:00:00Z"]), Some(1));
    assert_eq!(last(&["2024-01-01T00:00:00.512Z", "2024-01-01T00:00:00.5Z"]), Some(1));
    assert_eq!(last(&["2024-01-01T00:00:00Z", "2024-01-01T01:00:00+01:00"]), Some(2));
    assert_eq!(last(&["2024-01-01T00:00:00Z", "yesterday"]), Some(1));
    let at = |instant: i128| LastActivation::At { instant };
    assert_eq!(
        latest_activation(&vec![at(3), LastActivation::Never, at(5), at(5), at(-1)]),
        Some(3)
    );
    assert_eq!(
        latest_activation(&vec![LastActivation::Unknown, LastActivation::Never]),
        Some(0)
    );
}

#[test]
fn rollback_returns_to_the_previous_activated_generation() {
    let generations = vec![
        generation(1, Some("a")),
        generation(2, Some("b")),
        generation(3, None),
        generation(4, Some("c")),
    ];
    let state = AppState::Active { generation: 4 };
    assert_eq!(
        AppManager::rollback_target_generation(&state, &generations),
        Ok(2)
    );
    let asked = Cell::new(0);
    let (switch, action) = AppManager::rollback(&state, &generations, |number| {
        asked.set(number);
        true
    })
    .unwrap();
    assert_eq!(asked.get(), 2);
    assert_eq!((switch.from, switch.to), (Some(4), Some(2)));
    assert!(matches!(
        action,
        Action::Write {
            record: Record::Switching {
                from: Some(4),
                to: Some(2),
                recovery: false
            }
        }
    ));
    assert_eq!(
        AppManager::rollback(&state, &generations, |_| false).err(),
        Some(AppsError::Incomplete)
    );
    assert_eq!(
        AppManager::rollback(&AppState::Inactive, &generations, |_| true).err(),
        Some(AppsError::NoActiveGeneration)
    );
    assert_eq!(
        AppManager::rollback(&AppState::Active { generation: 1 }, &generations, |_| true).err(),
        Some(AppsError::NoPreviousGeneration)
    );
}

#[test]
fn old_generations_are_collected() {
    let generations = vec![
        generation(1, Some("a")),
        generation(2, Some("b")),
        generation(3, None),
        generation(4, Some("c")),
        generation(5, None),
    ];
    let state = AppState::Active { generation: 4 };
    let plan = AppManager::gc(&state, &generations, DEFAULT_KEEP);
    assert_eq!(plan, [3, 5, 1]);
    assert_eq!(
        removed_generations(&plan, &vec![true, false, true]),
        [1, 3]
    );
    assert_eq!(AppManager::gc(&state, &generations, 5), [3, 5]);
    let current = AppState::Active { generation: 5 };
    assert!(!AppManager::gc(&current, &generations, 0).contains(&5));
}

#[test]
fn removals_take_the_marker_first() {
    assert_eq!(
        AppManager::remove_generation(true),
        [RemovalStep::RemoveMarker, RemovalStep::RemoveDirectory]
    );
    assert_eq!(
        AppManager::remove_app(&AppState::Active { generation: 1 }, true),
        [RemovalStep::Deactivate, RemovalStep::RemoveDirectory]
    );
    assert_eq!(AppManager::remove_app(&AppState::Inactive, false), []);
}

fn run_switch(first: (Switch, Action), fails: &dyn Fn(&Action) -> bool) -> Vec<String> {
    let (mut switch, mut action) = first;
    let mut trace = Vec::new();
    loop {
        trace.push(format!("{action:?}"));
        if matches!(action, Action::Finish { .. }) {
            return trace;
        }
        assert!(trace.len() < 20);
        let (next, following) = switch.next(!fails(&action));
        switch = next;
        action = following;
    }
}

#[test]
fn switches_record_what_they_do() {
    let trace = run_switch(Switch::begin(Some(1), Some(2), false), &|_| false);
    assert_eq!(
        trace.first().map(|step| step.as_str()),
        Some(
            "Write { record: Switching { from: Some(1), to: Some(2), recovery: false } }"
        )
    );
    assert!(trace.contains(&"Deactivate { generation: 1, recovery: false }".to_owned()));
    assert!(trace.contains(&"Activate { generation: 2, recovery: false }".to_owned()));
    assert_eq!(
        trace.last().map(|step| step.as_str()),
        Some("Finish { failed: None }")
    );
}

#[test]
fn failed_activations_are_rolled_back() {
    let trace = run_switch(Switch::begin(Some(1), Some(2), false), &|action| {
        matches!(action, Action::Activate { generation: 2, .. })
    });
    let failed = trace
        .iter()
        .position(|step| step.starts_with("Activate { generation: 2"))
        .unwrap();
    let back = trace
        .iter()
        .position(|step| step.starts_with("Activate { generation: 1"))
        .unwrap();
    assert!(failed < back);
    assert_eq!(
        trace.last().map(|step| step.as_str()),
        Some("Finish { failed: None }")
    );
    let trace = run_switch(Switch::begin(Some(1), Some(2), false), &|action| {
        matches!(action, Action::Activate { .. })
    });
    assert!(trace.contains(&"Write { record: RollbackFailed { from: 1, to: 2 } }".to_owned()));
    assert_eq!(
        trace.last().map(|step| step.as_str()),
        Some("Finish { failed: Some(Activate) }")
    );
}

#[test]
fn interrupted_transitions_are_recovered() {
    let state = Record::Switching {
        from: Some(1),
        to: Some(2),
        recovery: false,
    }
    .state("");
    let (recovery, action) = AppManager::recover_app(&state);
    assert!(matches!(recovery, Recovery::Switching { .. }));
    assert!(matches!(
        action,
        Action::Write {
            record: Record::Switching { recovery: true, .. }
        }
    ));
    let (recovery, action) = AppManager::recover_app(&AppState::Active { generation: 1 });
    assert!(matches!(recovery, Recovery::Nothing));
    assert!(matches!(action, Action::Finish { failed: None }));
    let error = AppState::Error {
        from: Some(1),
        to: 2,
        message: "failed".to_owned(),
    };
    let (recovery, action) = AppManager::recover_app(&error);
    assert!(matches!(
        action,
        Action::Activate {
            generation: 1,
            recovery: true
        }
    ));
    let (_, action) = recovery.next(false);
    assert!(matches!(
        action,
        Action::Activate {
            generation: 2,
            recovery: true
        }
    ));
}

#[test]
fn workloads_return_to_active() {
    let (workload, action) = Workload::begin(&AppState::Active { generation: 3 }, true).unwrap();
    assert!(matches!(
        action,
        Action::Write {
            record: Record::Starting { generation: 3 }
        }
    ));
    let (workload, action) = workload.next(true);
    assert!(matches!(action, Action::Start { generation: 3, .. }));
    let (workload, action) = workload.next(false);
    assert!(matches!(
        action,
        Action::Write {
            record: Record::Active { generation: 3 }
        }
    ));
    let (_, action) = workload.next(true);
    assert!(matches!(
        action,
        Action::Finish {
            failed: Some(FailedStep::Workload)
        }
    ));
    assert!(Workload::begin(&AppState::Inactive, true).is_none());
}

#[test]
fn activations_need_complete_generations() {
    assert_eq!(
        AppManager::activate_generation(&AppState::Inactive, 1, false).err(),
        Some(AppsError::Incomplete)
    );
    assert_eq!(
        AppManager::deactivate(&AppState::Inactive).err(),
        Some(AppsError::NoActiveGeneration)
    );
    assert_eq!(AppManager::run_activate(2).len(), 5);
}

#[test]
fn units_of_active_apps_are_restored() {
    assert_eq!(units_dir("/g"), "/g/.rugix/systemd/units");
    let (mut restore, action) = UnitRestore::restore_app_units();
    assert_eq!(action, UnitAction::FindGeneration);
    assert_eq!(
        restore.next(UnitEvent::Generation(Some(2))),
        UnitAction::ProbeUnits { generation: 2 }
    );
    assert_eq!(
        restore.next(UnitEvent::HasUnits(true)),
        UnitAction::OpenUnits
    );
    let unit = |has_file_name: bool, name: Option<&str>| {
        UnitEvent::Unit(UnitEntry {
            has_file_name,
            name: name.map(|name| name.to_owned()),
        })
    };
    assert_eq!(restore.next(UnitEvent::Done), UnitAction::NextUnit);
    assert_eq!(restore.next(unit(false, None)), UnitAction::NextUnit);
    assert_eq!(
        restore.next(unit(true, Some("a.service"))),
        UnitAction::CopyUnit
    );
    assert_eq!(restore.next(UnitEvent::Done), UnitAction::NextUnit);
    assert_eq!(restore.next(unit(true, None)), UnitAction::CopyUnit);
    assert_eq!(restore.next(UnitEvent::Done), UnitAction::NextUnit);
    assert_eq!(restore.next(UnitEvent::End), UnitAction::Done);
    assert_eq!(restore.restored, ["a.service"]);

    // What was copied before an entry cannot be read stays restored.
    let (mut broken, _) = UnitRestore::restore_app_units();
    broken.next(UnitEvent::Generation(Some(2)));
    broken.next(UnitEvent::HasUnits(true));
    broken.next(UnitEvent::Done);
    broken.next(unit(true, Some("a.service")));
    broken.next(UnitEvent::Done);
    assert_eq!(broken.next(UnitEvent::Failed), UnitAction::Fail);
    assert_eq!(broken.restored, ["a.service"]);

    let (mut inactive, _) = UnitRestore::restore_app_units();
    assert_eq!(inactive.next(UnitEvent::Generation(None)), UnitAction::Done);
    let (mut failed, _) = UnitRestore::restore_app_units();
    assert_eq!(failed.next(UnitEvent::Failed), UnitAction::Fail);
}

#[test]
fn failures_do_not_keep_other_units_from_being_restored() {
    let (_, action) = Restore::restore_units(0);
    assert_eq!(action, RestoreAction::Done);
    let (mut restore, action) = Restore::restore_units(2);
    assert_eq!(action, RestoreAction::RestoreApp { app: 0 });
    assert_eq!(
        restore.next(false, 0),
        RestoreAction::RestoreApp { app: 1 }
    );
    assert_eq!(restore.next(true, 2), RestoreAction::Reload);
    assert_eq!(restore.next(true, 2), RestoreAction::Enable { unit: 0 });
    assert_eq!(restore.next(false, 2), RestoreAction::Enable { unit: 1 });
    assert_eq!(restore.next(true, 2), RestoreAction::Start { unit: 1 });
    assert_eq!(restore.next(true, 2), RestoreAction::Fail);
    assert_eq!(
        restore.failures,
        [
            RestoreFailure::App { app: 0 },
            RestoreFailure::Enable { unit: 0 }
        ]
    );
}

#[test]
fn apps_are_listed_with_what_is_known() {
    let apps = vec![
        AppFacts {
            name: "a".to_owned(),
            status: Some(AppStatus::Running),
            state: Some(AppState::Active { generation: 2 }),
        },
        AppFacts {
            name: "b".to_owned(),
            status: None,
            state: None,
        },
    ];
    let list = list_apps(&manager(), &apps, |dir: &str| Some(dir.to_owned()));
    assert_eq!(list[0].generation, Some(2));
    assert_eq!(
        list[0].metadata.as_deref(),
        Some("/data/apps/a/generations/2")
    );
    assert_eq!(list[1].status, AppStatus::Unknown);
    assert_eq!(list[1].metadata, None);
    assert_eq!(resolve_app_status(None), AppStatus::Unknown);
}

#[test]
fn apps_are_shown_with_their_generations() {
    let generations = vec![generation(1, Some("t")), generation(2, None)];
    let info = query_app(
        &manager(),
        QueryApp {
            name: "a".to_owned(),
        },
        Some(AppStatus::Stopped),
        &generations,
        AppState::Active { generation: 2 },
        |dir: &str| Some(dir.len()),
    );
    assert_eq!(info.status, AppStatus::Stopped);
    assert!(!info.generations[0].active && info.generations[1].active);
    assert_eq!(info.generations[0].last_activated.as_deref(), Some("t"));
    assert_eq!(
        info.generations[1].metadata,
        Some("/data/apps/a/generations/2".len())
    );
    let list = list_generations::<()>(&generations, &AppState::Inactive);
    assert!(list.iter().all(|entry| !entry.active && entry.metadata.is_none()));
}

#[test]
fn incompatible_generations_are_not_activated() {
    let (mut run, action) = AppCommandRun::begin(AppCommand::Activate { generation: None }, false);
    assert_eq!(action, CommandAction::Lock);
    assert_eq!(
        run.next(CommandEvent::Done),
        CommandAction::FindLastActivated
    );
    assert_eq!(
        run.next(CommandEvent::Generation(Some(3))),
        CommandAction::CheckGeneration { generation: 3 }
    );
    assert_eq!(
        run.next(CommandEvent::Compatible(false)),
        CommandAction::ReportIncompatible
    );
    assert_eq!(
        run.next(CommandEvent::Done),
        CommandAction::Fail(CommandError::Incompatible)
    );

    let (mut run, _) = AppCommandRun::begin(AppCommand::Activate { generation: Some(4) }, true);
    assert_eq!(
        run.next(CommandEvent::Done),
        CommandAction::Activate { generation: 4 }
    );
    let (mut run, _) = AppCommandRun::begin(AppCommand::Activate { generation: None }, true);
    run.next(CommandEvent::Done);
    assert_eq!(
        run.next(CommandEvent::Generation(None)),
        CommandAction::Fail(CommandError::NeverActivated)
    );
    let (mut run, _) = AppCommandRun::begin(AppCommand::Remove, false);
    assert_eq!(run.next(CommandEvent::Done), CommandAction::ReadCurrent);
    assert_eq!(
        run.next(CommandEvent::Generation(None)),
        CommandAction::Remove
    );
    let (mut run, _) = AppCommandRun::begin(AppCommand::Start, false);
    assert_eq!(run.next(CommandEvent::Done), CommandAction::Start);
    assert_eq!(
        run.next(CommandEvent::Failed),
        CommandAction::Fail(CommandError::ActionFailed)
    );
}

#[test]
fn indices_are_created_for_present_files() {
    assert_eq!(
        index_generation(None, &AppState::Inactive),
        Err(IndexError::NoActiveGeneration)
    );
    assert_eq!(
        index_generation(None, &AppState::Active { generation: 7 }),
        Ok(7)
    );
    let known = vec!["a".to_owned(), "b".to_owned()];
    assert_eq!(index_paths(&None, &known), ["a", "b"]);
    assert_eq!(gc_apps(&Some("x".to_owned()), &known), ["x"]);
    assert_eq!(
        index_file("/g", "d/f", |file: &str| file == "/g/d/f"),
        Ok("/g/d/f".to_owned())
    );
    assert_eq!(
        index_file("/g", "d/f", |_: &str| false),
        Err(IndexError::NotFound)
    );
    assert_eq!(
        index_file("/g", "/f", |_: &str| true),
        Err(IndexError::InvalidPath)
    );
}

#[test]
fn active_generations_are_resolved_where_they_are_present() {
    let state = AppState::Stopping { generation: 12 };
    assert_eq!(
        manager().resolve_current("app", &state, true),
        Some("/data/apps/app/generations/12".to_owned())
    );
    assert_eq!(manager().resolve_current("app", &state, false), None);
    assert_eq!(
        manager().resolve_current("app", &AppState::Inactive, true),
        None
    );
}
