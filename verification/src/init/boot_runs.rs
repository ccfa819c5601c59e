//! What every run of the initialization and of its parts satisfies.

use vstd::prelude::*;
use crate::init::bootstrap::{
    entry_formats, formats, is_new, Bootstrap, BootstrapAction, BootstrapConfig,
    BootstrapEvent, BootstrapFacts, BootstrapPhase, FormatKind, FormatStep, LayoutPartition,
    SchemaChoice, SystemLayout, TableType,
};
use crate::init::handoff::{handoff_steps, HandoffStep};
use crate::init::overlay::{
    clear_dir_step, create_dirs_step, overlay_plan, OverlayAction, OverlayFacts, OverlaySetup,
};
use crate::init::persist::{
    bind_step, copy_step, entry_plan, parent_step, state_path, system_path, write_step, PathKind,
    PersistError, PersistProbe,
};
use crate::init::{ConfigPartitionChoice, Essential, Init, InitAction, InitError, InitEvent, InitPhase};
use crate::path::path_join;
use crate::run::Run;
use crate::script::{run_step, OnFailure};
use crate::state::{OverlayConfig, OverlayFallbackConfig, PersistConfig};

verus! {

/// A run of the initialization.
pub type InitRun = Run<Init, InitAction, InitEvent>;

/// Whether these are the states, actions and outcomes of an initialization from its beginning.
pub open spec fn is_init_run(run: InitRun) -> bool {
    &&& run.wf()
    &&& run.states[0] == (Init {
        phase: InitPhase::Probing(Essential::Proc),
        choice: ConfigPartitionChoice::Missing,
        marker: None,
        wipe: false,
        committed: false,
    })
    &&& run.actions[0] == InitAction::ProbeMounted(Essential::Proc)
    &&& forall|i: int| #[trigger]
        run.has(i) ==> (run.states[i + 1].phase, run.actions[i + 1]) == run.states[i].step(
            run.events[i],
        ) && run.states[i + 1] == (Init {
            phase: run.states[i + 1].phase,
            ..run.states[i].remembered(run.events[i])
        })
}

/// How the config partition is to be found, as the configuration says.
pub open spec fn configured(events: Seq<InitEvent>, i: int) -> Option<ConfigPartitionChoice>
    decreases i,
{
    if i <= 0 {
        None
    } else {
        match events[i - 1] {
            InitEvent::Config(choice) => Some(choice),
            _ => configured(events, i - 1),
        }
    }
}

/// Which markers were found on the config partition: for bootstrapping, the dotted and the
/// plain one, and for a wipe.
pub open spec fn found_markers(events: Seq<InitEvent>, i: int) -> (bool, bool, bool)
    decreases i,
{
    if i <= 0 {
        (false, false, false)
    } else {
        match events[i - 1] {
            InitEvent::Markers { dotted, plain, wipe } => (dotted, plain, wipe),
            _ => found_markers(events, i - 1),
        }
    }
}

/// The group that is booted by default and the active one, as the boot flow says.
pub open spec fn found_groups(events: Seq<InitEvent>, i: int) -> (Option<usize>, Option<usize>)
    decreases i,
{
    if i <= 0 {
        (None, None)
    } else {
        match events[i - 1] {
            InitEvent::Groups { default, active } => (default, active),
            _ => found_groups(events, i - 1),
        }
    }
}

/// Whether an outcome is one of the action.
pub open spec fn init_fits(action: InitAction, event: InitEvent) -> bool {
    match action {
        InitAction::ProbeMounted(_) => event is Mounted,
        InitAction::LoadConfig => event is Config,
        InitAction::FindDevice => event is Done || event is NotFound,
        InitAction::FindRoot => event is Done || event is NotFound,
        InitAction::FindConfigPartition(_) => event is Done || event is NotFound,
        InitAction::ProbeMarkers => event is Markers,
        InitAction::QueryDefault => event is Groups,
        InitAction::SetupState { .. } => event is Done || event is SetupFailed,
        InitAction::Done => false,
        InitAction::Fail(_) => false,
        _ => event is Done,
    }
}

/// Whether a filesystem is taken care of by the outcome of an action: it is mounted already,
/// or mounting it was tried.
pub open spec fn is_cared_for(
    filesystem: Essential,
    action: InitAction,
    event: InitEvent,
) -> bool {
    ||| action == InitAction::ProbeMounted(filesystem) && event == InitEvent::Mounted(true)
    ||| action == InitAction::Mount(filesystem) && (event is Done || event is Failed)
}

spec fn awaits(phase: InitPhase, action: InitAction) -> bool {
    match phase {
        InitPhase::Probing(filesystem) => action == InitAction::ProbeMounted(filesystem),
        InitPhase::Mounting(filesystem) => action == InitAction::Mount(filesystem),
        InitPhase::LoadingHooks => action is LoadBootHooks,
        InitPhase::PreInit => action is RunPreInit,
        InitPhase::LoadingConfig => action is LoadConfig,
        InitPhase::FindingDevice => action is FindDevice,
        InitPhase::FindingRoot => action is FindRoot,
        InitPhase::FindingConfigPartition => action is FindConfigPartition,
        InitPhase::CreatingMountPoint => action is CreateConfigMountPoint,
        InitPhase::MountingConfig => action is MountConfig,
        InitPhase::ProbingMarkers => action is ProbeMarkers,
        InitPhase::MakingWritable => action == (InitAction::RemountConfig { writable: true }),
        InitPhase::Bootstrapping => action is Bootstrap,
        InitPhase::RemovingBootstrapMarker => action is RemoveBootstrapMarker,
        InitPhase::Wiping => action is WipeData,
        InitPhase::RemovingWipeMarker => action is RemoveWipeMarker,
        InitPhase::MakingReadonly => action == (InitAction::RemountConfig { writable: false }),
        InitPhase::InitializingSystem => action is InitializeSystem,
        InitPhase::QueryingDefault => action is QueryDefault,
        InitPhase::SettingUp => action is SetupState,
        InitPhase::ExecutingInit => action is ExecUnderlyingInit,
        InitPhase::Finished => action is Done || action is Fail,
    }
}

/// What holds where a phase is reached.
spec fn reached(init: Init) -> bool {
    match init.phase {
        InitPhase::MakingWritable => init.marker is Some || init.wipe,
        InitPhase::Bootstrapping => init.marker is Some,
        InitPhase::RemovingBootstrapMarker => init.marker is Some,
        InitPhase::Wiping => init.wipe,
        InitPhase::RemovingWipeMarker => init.wipe,
        _ => true,
    }
}

proof fn lemma_awaits(run: InitRun, i: int)
    requires
        is_init_run(run),
        0 <= i < run.actions.len(),
    ensures
        awaits(run.states[i].phase, run.actions[i]),
        reached(run.states[i]),
    decreases i,
{
    if i > 0 {
        assert(run.has(i - 1));
        lemma_awaits(run, i - 1);
    }
}

proof fn lemma_remembered(run: InitRun, i: int)
    requires
        is_init_run(run),
        0 <= i < run.actions.len(),
    ensures
        run.states[i].phase is Finished || ({
            let (dotted, plain, wipe) = found_markers(run.events, i);
            let (default, active) = found_groups(run.events, i);
            &&& run.states[i].choice == match configured(run.events, i) {
                Some(choice) => choice,
                None => ConfigPartitionChoice::Missing,
            }
            &&& run.states[i].marker == if dotted {
                Some(true)
            } else if plain {
                Some(false)
            } else {
                None
            }
            &&& run.states[i].wipe == wipe
            &&& run.states[i].committed == (default is Some && default == active)
        }),
    decreases i,
{
    if i > 0 {
        assert(run.has(i - 1));
        lemma_remembered(run, i - 1);
    }
}

/// The essential filesystems are taken care of first, in order, each mounted unless it is
/// already; then the hooks are run, whose failure is survived, and the configuration is
/// loaded; then the config partition is found as the configuration says, and mounted.
pub proof fn law_config_partition_is_mounted_in_order(run: InitRun, i: int)
    requires
        is_init_run(run),
        run.has(i),
    ensures
        ({
            let before = run.actions[i];
            let event = run.events[i];
            let after = run.actions[i + 1];
            &&& after != InitAction::ProbeMounted(Essential::Proc)
            &&& after == InitAction::ProbeMounted(Essential::Sys) ==> is_cared_for(
                Essential::Proc,
                before,
                event,
            )
            &&& after == InitAction::ProbeMounted(Essential::Run) ==> is_cared_for(
                Essential::Sys,
                before,
                event,
            )
            &&& after matches InitAction::Mount(filesystem) ==> before == InitAction::ProbeMounted(
                filesystem,
            ) && event == InitEvent::Mounted(false)
            &&& after is LoadBootHooks ==> is_cared_for(Essential::Run, before, event)
            &&& after is RunPreInit ==> before is LoadBootHooks && event is Done
            &&& after is LoadConfig ==> before is RunPreInit && (event is Done || event is Failed)
            &&& after is FindDevice ==> before is LoadConfig && event is Config
            &&& after is FindRoot ==> before is FindDevice && event is Done
            &&& after matches InitAction::FindConfigPartition(choice) ==> before is FindRoot
                && event is Done && configured(run.events, i + 1) == Some(choice)
                && !(choice is Missing)
            &&& after is CreateConfigMountPoint ==> before is FindConfigPartition && event is Done
            &&& after is MountConfig ==> before is CreateConfigMountPoint && (event is Done
                || event is Failed)
            &&& after is ProbeMarkers ==> before is MountConfig && event is Done
        }),
{
    lemma_awaits(run, i);
    lemma_awaits(run, i + 1);
    lemma_remembered(run, i);
    lemma_remembered(run, i + 1);
}

/// The device is bootstrapped and its data partition wiped only where a marker asks for it,
/// and a marker is removed only once what it asks for has succeeded. The config partition is
/// writable only for that.
pub proof fn law_markers_are_honored(run: InitRun, i: int)
    requires
        is_init_run(run),
        run.has(i),
    ensures
        ({
            let before = run.actions[i];
            let event = run.events[i];
            let after = run.actions[i + 1];
            let (dotted, plain, wipe) = found_markers(run.events, i + 1);
            let writable = before == (InitAction::RemountConfig { writable: true })
                && event is Done;
            let bootstrapped = before is RemoveBootstrapMarker && event is Done;
            &&& after == (InitAction::RemountConfig { writable: true }) ==> before is ProbeMarkers
                && event is Markers && (dotted || plain || wipe)
            &&& after is Bootstrap ==> writable && (dotted || plain)
            &&& after matches InitAction::RemoveBootstrapMarker { dotted: d } ==> before is Bootstrap
                && event is Done && d == dotted && (dotted || plain)
            &&& after is WipeData ==> wipe && if dotted || plain {
                bootstrapped
            } else {
                writable
            }
            &&& after is RemoveWipeMarker ==> before is WipeData && event is Done && wipe
            &&& after == (InitAction::RemountConfig { writable: false }) ==> if wipe {
                before is RemoveWipeMarker && event is Done
            } else {
                bootstrapped
            }
            &&& after is InitializeSystem ==> ({
                ||| before is ProbeMarkers && event is Markers && !dotted && !plain && !wipe
                ||| before == (InitAction::RemountConfig { writable: false }) && event is Done
            })
            &&& writable && (dotted || plain) ==> after is Bootstrap
            &&& writable && !dotted && !plain ==> after is WipeData
            &&& bootstrapped && wipe ==> after is WipeData
        }),
{
    lemma_awaits(run, i);
    lemma_awaits(run, i + 1);
    lemma_remembered(run, i);
    lemma_remembered(run, i + 1);
}

/// The state is set up once the system is known, and hooks are told truly whether the running
/// system needs a commit. Where the state cannot be set up, the init of the system is run all
/// the same where the running system is the one that is booted by default and the boot flow
/// does not recover by itself.
pub proof fn law_state_is_set_up(run: InitRun, i: int)
    requires
        is_init_run(run),
        run.has(i),
    ensures
        ({
            let before = run.actions[i];
            let event = run.events[i];
            let after = run.actions[i + 1];
            let (default, active) = found_groups(run.events, i + 1);
            &&& after is QueryDefault ==> before is InitializeSystem && event is Done
            &&& after matches InitAction::SetupState { requires_commit } ==> before is QueryDefault
                && event is Groups && requires_commit == (default != active)
            &&& after is ExecUnderlyingInit ==> before is SetupState && event is SetupFailed
                && default is Some && default == active && event->userspace_failure_recovery
                != Some(true)
            &&& before is SetupState && event is SetupFailed && default is Some && default
                == active && event->userspace_failure_recovery != Some(true)
                ==> after is ExecUnderlyingInit
            &&& after is Done ==> before is SetupState && event is Done
        }),
{
    lemma_awaits(run, i);
    lemma_awaits(run, i + 1);
    lemma_remembered(run, i);
    lemma_remembered(run, i + 1);
}

/// An initialization fails for a reason, and only for one.
pub proof fn law_init_fails_for_a_reason(run: InitRun, i: int)
    requires
        is_init_run(run),
        run.has(i),
    ensures
        ({
            let before = run.actions[i];
            let event = run.events[i];
            let after = run.actions[i + 1];
            &&& before is Done || before is Fail ==> after is Fail
            &&& after matches InitAction::Fail(error) ==> match error {
                InitError::NoSystemDevice => before is FindDevice && event is NotFound,
                InitError::NoSystemRoot => before is FindRoot && event is NotFound,
                InitError::NoConfigPartition => (before is FindConfigPartition
                    && event is NotFound) || (before is FindRoot && event is Done && (configured(
                    run.events,
                    i,
                ) is None || configured(run.events, i) == Some(ConfigPartitionChoice::Missing))),
                InitError::StateSetup => (before is SetupState && event is SetupFailed) || (
                before is ExecUnderlyingInit && (event is Done || event is Failed)),
                InitError::ActionFailed => event is Failed && !(before is Mount) && !(
                before is RunPreInit) && !(before is CreateConfigMountPoint) && !(
                before is ExecUnderlyingInit),
                InitError::UnexpectedOutcome => !init_fits(before, event),
            }
        }),
{
    lemma_awaits(run, i);
    lemma_awaits(run, i + 1);
    lemma_remembered(run, i);
}

/// A run of bootstrapping.
pub type BootstrapRun = Run<Bootstrap, BootstrapAction, BootstrapEvent>;

/// Whether these are the states, actions and outcomes of bootstrapping from its beginning.
pub open spec fn is_bootstrap_run(run: BootstrapRun, facts: BootstrapFacts) -> bool {
    &&& run.wf()
    &&& run.states[0].wf()
    &&& run.states[0].phase is LoadingHooks
    &&& run.states[0].facts == facts
    &&& run.actions[0] is LoadHooks
    &&& forall|i: int| #[trigger]
        run.has(i) ==> run.states[i].follows(run.events[i], run.states[i + 1], run.actions[i + 1])
}

/// The configuration that was loaded before the action `i`.
pub open spec fn loaded_config(events: Seq<BootstrapEvent>, i: int) -> Option<BootstrapConfig>
    decreases i,
{
    if i <= 0 {
        None
    } else {
        match events[i - 1] {
            BootstrapEvent::Config(config) => Some(config),
            _ => loaded_config(events, i - 1),
        }
    }
}

/// The numbers of the partitions that the disk had, as they were read before the action `i`.
pub open spec fn read_numbers(events: Seq<BootstrapEvent>, i: int) -> Option<Seq<u8>>
    decreases i,
{
    if i <= 0 {
        None
    } else {
        match events[i - 1] {
            BootstrapEvent::Table(numbers) => Some(numbers@),
            _ => read_numbers(events, i - 1),
        }
    }
}

/// The layout that a configuration asks for: unless it says otherwise, the usual one with
/// system partitions of four gibibytes.
pub open spec fn wanted_layout(config: BootstrapConfig) -> SystemLayout {
    if config.layout is Some {
        config.layout->0
    } else {
        SystemLayout::Usual { system_size: 4294967296 }
    }
}

spec fn awaits_bootstrap(phase: BootstrapPhase, action: BootstrapAction) -> bool {
    match phase {
        BootstrapPhase::LoadingHooks => action is LoadHooks,
        BootstrapPhase::Preparing => action is RunPrepare,
        BootstrapPhase::LoadingConfig => action is LoadConfig,
        BootstrapPhase::PreLayout => action is RunPreLayout,
        BootstrapPhase::ReadingTable => action is ReadTable,
        BootstrapPhase::Computing => action is ComputeTable,
        BootstrapPhase::Writing => action is WriteTable,
        BootstrapPhase::Syncing => action is Sync,
        BootstrapPhase::UpdatingKernel => action is UpdateKernel,
        BootstrapPhase::Formatting => action is Format,
        BootstrapPhase::PostLayout => action is RunPostLayout,
        BootstrapPhase::Finished => action is Done || action is Fail,
    }
}

proof fn lemma_bootstrap(run: BootstrapRun, facts: BootstrapFacts, i: int)
    requires
        is_bootstrap_run(run, facts),
        0 <= i < run.actions.len(),
    ensures
        awaits_bootstrap(run.states[i].phase, run.actions[i]),
        run.states[i].facts == facts,
        run.states[i].wf(),
        run.states[i].phase is Formatting ==> run.actions[i] == BootstrapAction::Format(
            run.states[i].formats@[run.states[i].at as int],
        ),
        run.states[i].phase is Finished || run.states[i].phase is LoadingHooks
            || run.states[i].phase is Preparing || run.states[i].phase is LoadingConfig || (
        loaded_config(run.events, i) is Some && run.states[i].layout == wanted_layout(
            loaded_config(run.events, i)->0,
        )),
        run.states[i].phase is Computing || run.states[i].phase is Writing
            || run.states[i].phase is Syncing || run.states[i].phase is UpdatingKernel
            || run.states[i].phase is Formatting ==> read_numbers(run.events, i) == Some(
            run.states[i].old@,
        ),
    decreases i,
{
    if i > 0 {
        assert(run.has(i - 1));
        lemma_bootstrap(run, facts, i - 1);
    }
}

/// The disk is partitioned in order, and only where that is wanted: the hooks have to succeed
/// and bootstrapping must not be disabled; the new table is computed for the layout, written
/// only where it differs, and the kernel learns of it before anything is formatted; then the
/// new partitions are formatted, one after the other.
#[verifier::rlimit(40)]
pub proof fn law_disk_is_partitioned_in_order(run: BootstrapRun, facts: BootstrapFacts, i: int)
    requires
        is_bootstrap_run(run, facts),
        run.has(i),
    ensures
        ({
            let before = run.actions[i];
            let event = run.events[i];
            let after = run.actions[i + 1];
            let config = loaded_config(run.events, i + 1)->0;
            let layout = wanted_layout(config);
            let wanted = formats(layout, read_numbers(run.events, i)->0, facts);
            let done = event is Done;
            &&& !(after is LoadHooks)
            &&& after is RunPrepare ==> before is LoadHooks && done
            &&& after is LoadConfig ==> before is RunPrepare && done
            &&& after is RunPreLayout ==> before is LoadConfig && event is Config && config.disabled
                != Some(true) && !(layout is Unchanged)
            &&& after is ReadTable ==> before is RunPreLayout && done
            &&& after matches BootstrapAction::ComputeTable(choice) ==> before is ReadTable
                && event is Table && is_schema_for(layout, facts.table, choice)
            &&& after is WriteTable ==> before is ComputeTable && event == (
            BootstrapEvent::Computed { changed: true })
            &&& after is Sync ==> before is WriteTable && done
            &&& after is UpdateKernel ==> before is Sync && done
            &&& after matches BootstrapAction::Format(step) ==> done && ({
                ||| before is UpdateKernel && wanted.len() > 0 && step == wanted[0]
                ||| before is Format && exists|k: int|
                    0 <= k < wanted.len() - 1 && before == BootstrapAction::Format(
                        #[trigger] wanted[k],
                    ) && step == wanted[k + 1]
            })
            &&& after is RunPostLayout ==> ({
                ||| before is ComputeTable && event == (BootstrapEvent::Computed { changed: false })
                ||| before is UpdateKernel && done && wanted.len() == 0
                ||| done && wanted.len() > 0 && before == BootstrapAction::Format(wanted.last())
            })
            &&& after is Done ==> ({
                ||| before is LoadConfig && event is Config && (config.disabled == Some(true)
                    || layout is Unchanged)
                ||| before is RunPostLayout && done
            })
            &&& after is Fail ==> event is Failed || before is Done || before is Fail
                || !bootstrap_fits(before, event)
        }),
{
    lemma_bootstrap(run, facts, i);
    lemma_bootstrap(run, facts, i + 1);
    let at = run.states[i].at as int;
    if run.states[i].phase is Formatting && run.actions[i + 1] is Format {
        assert(run.states[i].formats@[at] == run.states[i].formats@[at]);
    }
}

/// Whether an outcome is one of the action.
pub open spec fn bootstrap_fits(action: BootstrapAction, event: BootstrapEvent) -> bool {
    match action {
        BootstrapAction::LoadConfig => event is Config,
        BootstrapAction::ReadTable => event is Table,
        BootstrapAction::ComputeTable(_) => event is Computed,
        _ => event is Done,
    }
}

/// Whether a choice of partitions is the one for a layout: the listed ones, or generic ones of
/// the right size that suit the table.
pub open spec fn is_schema_for(layout: SystemLayout, table: TableType, choice: SchemaChoice) -> bool {
    match choice {
        SchemaChoice::Listed => layout is Mbr || layout is Gpt,
        SchemaChoice::GenericEfi { system_size } => layout == (SystemLayout::Usual { system_size })
            && table is Gpt,
        SchemaChoice::GenericMbr { system_size } => layout == (SystemLayout::Usual { system_size })
            && table is Mbr,
        SchemaChoice::Unchanged => layout is Unchanged,
    }
}

/// The number of the data partition: the configured one, or else the one that it has among
/// the generic partitions.
pub open spec fn data_number(facts: BootstrapFacts) -> u32 {
    if facts.data_partition is Some {
        facts.data_partition->0
    } else if facts.table is Mbr {
        7
    } else {
        6
    }
}

/// What is formatted for a listed entry that is new.
pub open spec fn wanted_format(
    partitions: Seq<LayoutPartition>,
    facts: BootstrapFacts,
    index: int,
    step: FormatStep,
) -> bool {
    &&& step.partition == (index + 1) as u32
    &&& if step.partition == data_number(facts) && facts.has_driver {
        step.kind is Driver
    } else {
        partitions[index].filesystem is Some && step.kind == (FormatKind::Filesystem {
            index: index as usize,
        })
    }
}

/// Whether a listed entry is formatted by one of the steps.
pub open spec fn is_formatted(
    steps: Seq<FormatStep>,
    partitions: Seq<LayoutPartition>,
    facts: BootstrapFacts,
    index: int,
) -> bool {
    exists|k: int|
        0 <= k < steps.len() && wanted_format(partitions, facts, index, #[trigger] steps[k])
}

/// Whether a listed entry is to be formatted where it is new.
pub open spec fn is_to_be_formatted(
    partitions: Seq<LayoutPartition>,
    facts: BootstrapFacts,
    index: int,
) -> bool {
    ((index + 1) as u32 == data_number(facts) && facts.has_driver)
        || partitions[index].filesystem is Some
}

proof fn lemma_entry_formats(
    partitions: Seq<LayoutPartition>,
    old: nat,
    facts: BootstrapFacts,
    n: nat,
    index: int,
)
    requires
        old <= index < n,
    ensures
        is_to_be_formatted(partitions, facts, index) ==> is_formatted(
            entry_formats(partitions, old, facts, n),
            partitions,
            facts,
            index,
        ),
    decreases n,
{
    let all = entry_formats(partitions, old, facts, n);
    let before = entry_formats(partitions, old, facts, (n - 1) as nat);
    if is_to_be_formatted(partitions, facts, index) {
        if index == n - 1 {
            assert(wanted_format(partitions, facts, index, all[before.len() as int]));
        } else {
            lemma_entry_formats(partitions, old, facts, (n - 1) as nat, index);
            let k = choose|k: int|
                0 <= k < before.len() && wanted_format(
                    partitions,
                    facts,
                    index,
                    #[trigger] before[k],
                );
            assert(all[k] == before[k]);
        }
    }
}

/// Every new partition that is to be formatted is: of the usual ones the data partition by its
/// driver; of the listed ones the data partition by its driver, where one is configured, and
/// each other one with the filesystem that is listed for it.
pub proof fn law_new_partitions_are_formatted(
    layout: SystemLayout,
    old: Seq<u8>,
    facts: BootstrapFacts,
    index: int,
)
    ensures
        layout is Usual && is_new(old, data_number(facts)) ==> formats(layout, old, facts) == seq![
            FormatStep { partition: data_number(facts), kind: FormatKind::Driver },
        ],
        layout is Usual && !is_new(old, data_number(facts)) ==> formats(layout, old, facts).len()
            == 0,
        layout is Unchanged ==> formats(layout, old, facts).len() == 0,
        layout matches SystemLayout::Mbr(partitions) ==> old.len() <= index < partitions@.len()
            && is_to_be_formatted(partitions@, facts, index) ==> is_formatted(
            formats(layout, old, facts),
            partitions@,
            facts,
            index,
        ),
        layout matches SystemLayout::Gpt(partitions) ==> old.len() <= index < partitions@.len()
            && is_to_be_formatted(partitions@, facts, index) ==> is_formatted(
            formats(layout, old, facts),
            partitions@,
            facts,
            index,
        ),
{
    match layout {
        SystemLayout::Mbr(partitions) => {
            if old.len() <= index < partitions@.len() {
                lemma_entry_formats(partitions@, old.len(), facts, partitions@.len(), index);
            }
        },
        SystemLayout::Gpt(partitions) => {
            if old.len() <= index < partitions@.len() {
                lemma_entry_formats(partitions@, old.len(), facts, partitions@.len(), index);
            }
        },
        _ => {},
    }
}

/// A run of the setup of the overlay. An outcome says whether the action succeeded.
pub type OverlayRun = Run<OverlaySetup, OverlayAction, bool>;

/// Whether these are the states, actions and outcomes of the setup from its beginning.
pub open spec fn is_overlay_run(
    run: OverlayRun,
    overlay: Option<OverlayConfig>,
    fallback: Option<OverlayFallbackConfig>,
) -> bool {
    &&& run.wf()
    &&& run.states[0].phase is Attempting
    &&& run.states[0].mode == configured_mode(overlay)
    &&& run.states[0].fallback == fallback
    &&& run.actions[0] == OverlayAction::Attempt(run.states[0].mode)
    &&& forall|i: int| #[trigger]
        run.has(i) ==> (run.states[i + 1].phase, run.actions[i + 1]) == run.states[i].step(
            run.events[i],
        ) && run.states[i + 1].mode == run.states[i].mode && run.states[i + 1].fallback
            == run.states[i].fallback
}

/// The overlay that is configured: unless said otherwise, it is discarded on every boot.
pub open spec fn configured_mode(overlay: Option<OverlayConfig>) -> OverlayConfig {
    if overlay is Some {
        overlay->0
    } else {
        OverlayConfig::Discard
    }
}

/// The configured overlay is tried first. Where that succeeds, it is the one that is used, and
/// the log of an earlier fallback is removed. Where it fails, an overlay in memory is used
/// instead if that is configured and the failed one was not in memory or none at all; why it
/// failed is written down before.
pub proof fn law_overlay_falls_back_as_configured(
    run: OverlayRun,
    overlay: Option<OverlayConfig>,
    fallback: Option<OverlayFallbackConfig>,
)
    requires
        is_overlay_run(run, overlay, fallback),
    ensures
        ({
            let mode = configured_mode(overlay);
            let falls_back = fallback is Some && !(mode is InMemory) && !(mode is Disabled);
            &&& run.actions[0] == OverlayAction::Attempt(mode)
            &&& run.has(0) && run.events[0] ==> run.actions[1] is ClearFallbackError
            &&& run.has(1) && run.events[0] ==> run.actions[2] == OverlayAction::Done(mode)
            &&& run.has(0) && !run.events[0] ==> run.actions[1] == if falls_back {
                OverlayAction::WriteFallbackError
            } else {
                OverlayAction::Fail { with_fallback: false }
            }
            &&& run.has(1) && !run.events[0] && falls_back ==> run.actions[2]
                == OverlayAction::Attempt(OverlayConfig::InMemory)
            &&& run.has(2) && !run.events[0] && falls_back ==> run.actions[3] == if run.events[2] {
                OverlayAction::Done(OverlayConfig::InMemory)
            } else {
                OverlayAction::Fail { with_fallback: true }
            }
        }),
{
    if run.has(2) {
        assert(run.has(1));
    }
    if run.has(1) {
        assert(run.has(0));
    }
}

/// An overlay is mounted over the system partition with its changes kept apart for each boot
/// group, or in memory; the previous root of it is cleared, everything that the mount needs is
/// there before it, and `/run` appears in the new root after it. Without an overlay the root
/// stays.
pub proof fn law_overlay_is_mounted_over_the_system(mode: OverlayConfig, facts: OverlayFacts)
    ensures
        ({
            let (steps, root) = overlay_plan(mode, facts);
            let n = steps.len() as int;
            let base = if mode is InMemory {
                "/run/rugix/overlay"@
            } else {
                "/run/rugix/mounts/data/overlay"@
            };
            let work = if mode is InMemory {
                "/run/rugix/overlay/work"@
            } else {
                "/run/rugix/mounts/data/overlay/work"@
            };
            let upper = if mode is InMemory {
                "/run/rugix/overlay/upper"@
            } else {
                path_join(
                    path_join(facts.state_profile@, "overlay"@),
                    if facts.active_group is Some {
                        facts.active_group->0@
                    } else {
                        "_unknown"@
                    },
                )
            };
            &&& mode is Disabled ==> n == 0 && root == "/"@
            &&& !(mode is Disabled) ==> {
                &&& root == if mode is InMemory {
                    "/run/rugix/overlay/root"@
                } else {
                    "/run/rugix/mounts/data/overlay/root"@
                }
                &&& n >= 6
                &&& steps[n - 6] == clear_dir_step(base)
                &&& steps[n - 5] == create_dirs_step(work, OnFailure::Abort)
                &&& steps[n - 4] == create_dirs_step(root, OnFailure::Abort)
                &&& steps[n - 3] == create_dirs_step(upper, OnFailure::Abort)
                &&& steps[n - 2] == run_step(
                    seq![
                        "/usr/bin/env"@,
                        "mount"@,
                        "-t"@,
                        "overlay"@,
                        "overlay"@,
                        "-o"@,
                        "noatime,lowerdir="@ + facts.system@ + ",upperdir="@ + upper
                            + ",workdir="@ + work,
                        root,
                    ],
                    OnFailure::Abort,
                )
                &&& steps[n - 1] == run_step(
                    seq![
                        "/usr/bin/env"@,
                        "mount"@,
                        "--rbind"@,
                        "/run"@,
                        path_join(root, "run"@),
                    ],
                    OnFailure::Abort,
                )
                &&& forall|i: int| 0 <= i < n ==> (#[trigger] steps[i]).on_failure is Abort
            }
        }),
{
}

/// A handover to another root directory restores the machine id there and changes to it
/// before the hooks are run; in any case the hooks are told whether a commit is required
/// before the init of the system is run.
pub proof fn law_handoff_is_in_order(root_dir: Seq<char>, requires_commit: bool)
    ensures
        ({
            let steps = handoff_steps(root_dir, requires_commit);
            let n = steps.len() as int;
            &&& n == if root_dir == "/"@ {
                3int
            } else {
                8int
            }
            &&& steps[n - 3] is LoadBootHooks
            &&& steps[n - 2] == (HandoffStep::RunPostInit { requires_commit })
            &&& steps[n - 1] is ExecInit
            &&& root_dir != "/"@ ==> {
                &&& steps[0] is RestoreMachineId
                &&& steps[1] is EnterRoot
                &&& steps[2] is PivotRoot
                &&& steps[3] is DetachOldRoot
                &&& steps[4] is EnterSlash
            }
        }),
        forall|step: HandoffStep| #[trigger] step.fatal() <==> !(step is RunPostInit),
{
}

/// What is kept of a directory or file: where it is not kept yet, it gets what the system has,
/// or else a fresh one; and at the end what is kept appears in the system. An entry of another
/// kind in the system is refused.
pub proof fn law_persistent_entry_is_kept(
    entry: PersistConfig,
    root_dir: Seq<char>,
    state_profile: Seq<char>,
    probe: PersistProbe,
)
    ensures
        ({
            let plan = entry_plan(entry, root_dir, state_profile, probe);
            let system = system_path(entry, root_dir);
            let state = state_path(entry, state_profile);
            let kind = if entry is Directory {
                PathKind::Directory
            } else {
                PathKind::File
            };
            let refused = !(probe.system is Nothing) && probe.system != kind;
            &&& refused ==> plan.0.len() == 0 && plan.1 == Some(
                if entry is Directory {
                    PersistError::NotADirectory
                } else {
                    PersistError::NotAFile
                },
            )
            &&& !refused ==> plan.1 is None && plan.0.len() > 0 && plan.0.last() == bind_step(
                state,
                system,
            )
            &&& !refused && probe.state != kind && probe.system == kind ==> plan.0[2] == copy_step(
                system,
                state,
            )
            &&& !refused && probe.state != kind && probe.system != kind && entry is Directory
                ==> plan.0[2] == create_dirs_step(state, OnFailure::Ignore)
            &&& !refused && probe.state != kind && probe.system != kind ==> (entry matches
                PersistConfig::File { default, .. } ==> plan.0[2] == write_step(
                state,
                if default is Some {
                    default->0@
                } else {
                    ""@
                },
            ))
            &&& !refused && probe.system != kind && entry is Directory ==> plan.0[plan.0.len() - 2]
                == create_dirs_step(system, OnFailure::Abort)
            &&& !refused && probe.system != kind && entry is File ==> plan.0[plan.0.len() - 2]
                == write_step(system, ""@) && plan.0[plan.0.len() - 3] == parent_step(
                system,
                OnFailure::Abort,
            )
        }),
{
}

} // verus!
