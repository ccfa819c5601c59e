//! Bootstrapping: partitioning and formatting the disk on the first boot.

use vstd::prelude::*;

verus! {

/// Kind of a partition table.
#[derive(Debug, Clone, Copy, PartialEq, Eq, Structural)]
pub enum TableType {
    Gpt,
    Mbr,
}

/// A filesystem to create.
#[derive(Debug)]
pub struct Ext4Filesystem {
    pub label: Option<String>,
    pub additional_options: Option<Vec<String>>,
}

/// A partition of a layout.
#[derive(Debug)]
pub struct LayoutPartition {
    pub name: Option<String>,
    /// Size in bytes.
    pub size: Option<u64>,
    /// Type of the partition, as it is configured.
    pub ty: Option<String>,
    pub filesystem: Option<Ext4Filesystem>,
}

/// How the disk is to be partitioned.
#[derive(Debug)]
pub enum SystemLayout {
    /// As listed, on a disk with an MBR.
    Mbr(Vec<LayoutPartition>),
    /// As listed, on a disk with a GPT.
    Gpt(Vec<LayoutPartition>),
    /// As is usual, with system partitions of a given size.
    Usual { system_size: u64 },
    /// Not at all.
    Unchanged,
}

/// Settings of bootstrapping.
#[derive(Debug)]
pub struct BootstrapConfig {
    pub disabled: Option<bool>,
    pub layout: Option<SystemLayout>,
}

/// Size of the system partitions unless told otherwise: four gibibytes.
pub const DEFAULT_SYSTEM_SIZE: u64 = 4294967296;

/// The partitions that the disk is to have.
#[derive(Debug, Clone, Copy, PartialEq, Eq, Structural)]
pub enum SchemaChoice {
    /// Those of the layout.
    Listed,
    /// The generic ones for EFI.
    GenericEfi { system_size: u64 },
    /// The generic ones for an MBR.
    GenericMbr { system_size: u64 },
    /// None: the disk stays as it is.
    Unchanged,
}

/// The partitions that the disk is to have: the listed ones, or generic ones that suit
/// its table.
pub fn choose_schema(layout: &SystemLayout, table: TableType) -> (r: SchemaChoice)
    ensures
        r == schema(*layout, table),
{
    match layout {
        SystemLayout::Mbr(_) => SchemaChoice::Listed,
        SystemLayout::Gpt(_) => SchemaChoice::Listed,
        SystemLayout::Usual { system_size } => match table {
            TableType::Gpt => SchemaChoice::GenericEfi { system_size: *system_size },
            TableType::Mbr => SchemaChoice::GenericMbr { system_size: *system_size },
        },
        SystemLayout::Unchanged => SchemaChoice::Unchanged,
    }
}

/// The partitions that the disk is to have.
pub open spec fn schema(layout: SystemLayout, table: TableType) -> SchemaChoice {
    match layout {
        SystemLayout::Mbr(_) => SchemaChoice::Listed,
        SystemLayout::Gpt(_) => SchemaChoice::Listed,
        SystemLayout::Usual { system_size } => match table {
            TableType::Gpt => SchemaChoice::GenericEfi { system_size },
            TableType::Mbr => SchemaChoice::GenericMbr { system_size },
        },
        SystemLayout::Unchanged => SchemaChoice::Unchanged,
    }
}

/// What is known of the disk and of the data partition.
#[derive(Debug, Clone, Copy, PartialEq, Eq, Structural)]
pub struct BootstrapFacts {
    pub table: TableType,
    /// Number of the data partition, where it is configured.
    pub data_partition: Option<u32>,
    /// Whether a driver is configured for the data partition.
    pub has_driver: bool,
}

impl BootstrapFacts {
    /// The number of the data partition.
    pub open spec fn data_number(self) -> u32 {
        match self.data_partition {
            Some(number) => number,
            None => match self.table {
                TableType::Mbr => 7,
                TableType::Gpt => 6,
            },
        }
    }

    /// The number of the data partition. Unless configured it is that of the generic
    /// partitions.
    pub fn data_partition_number(&self) -> (r: u32)
        ensures
            r == self.data_number(),
    {
        match self.data_partition {
            Some(number) => number,
            None => match self.table {
                TableType::Mbr => 7,
                TableType::Gpt => 6,
            },
        }
    }
}

/// Returns whether the configured data partition was added during repartitioning.
///
/// Partition numbers are one-based and are not required to be contiguous, so the number
/// of entries in the old table cannot be used to determine whether a particular partition
/// existed.
pub fn data_partition_is_new(old_numbers: &Vec<u8>, data_partition_idx: u32) -> (r: bool)
    ensures
        r == is_new(old_numbers@, data_partition_idx),
{
    let mut i: usize = 0;
    while i < old_numbers.len()
        invariant
            i <= old_numbers@.len(),
            forall|j: int| 0 <= j < i ==> (#[trigger] old_numbers@[j]) as u32 != data_partition_idx,
        decreases old_numbers@.len() - i,
    {
        if old_numbers[i] as u32 == data_partition_idx {
            return false;
        }
        i = i + 1;
    }
    true
}

/// Whether no partition has the given number.
pub open spec fn is_new(numbers: Seq<u8>, number: u32) -> bool {
    forall|j: int| 0 <= j < numbers.len() ==> (#[trigger] numbers[j]) as u32 != number
}

/// Formats the data partition if it was added during repartitioning, and only then.
pub fn format_data_partition_if_new<E>(
    old_numbers: &Vec<u8>,
    data_partition_idx: u32,
    format: impl FnOnce() -> Result<(), E>,
) -> (r: Result<(), E>)
    requires
        is_new(old_numbers@, data_partition_idx) ==> call_requires(format, ()),
    ensures
        is_new(old_numbers@, data_partition_idx) ==> call_ensures(format, (), r),
        !is_new(old_numbers@, data_partition_idx) ==> r is Ok,
{
    if data_partition_is_new(old_numbers, data_partition_idx) {
        format()
    } else {
        Ok(())
    }
}

/// How a new partition is formatted.
#[derive(Debug, Clone, Copy, PartialEq, Eq, Structural)]
pub enum FormatKind {
    /// By the driver of the data partition.
    Driver,
    /// With the filesystem of the entry of the layout.
    Filesystem { index: usize },
}

/// A new partition that is formatted.
#[derive(Debug, Clone, Copy, PartialEq, Eq, Structural)]
pub struct FormatStep {
    /// Number of the partition.
    pub partition: u32,
    pub kind: FormatKind,
}

/// What is formatted for the entry `index` of a layout on a disk that had `old` partitions
/// before. A configured driver owns the format of the data partition.
pub open spec fn entry_format(
    partitions: Seq<LayoutPartition>,
    old: nat,
    facts: BootstrapFacts,
    index: int,
) -> Option<FormatStep> {
    let partition = (index + 1) as u32;
    if index < old {
        None
    } else if partition == facts.data_number() && facts.has_driver {
        Some(FormatStep { partition, kind: FormatKind::Driver })
    } else if partitions[index].filesystem is Some {
        Some(FormatStep { partition, kind: FormatKind::Filesystem { index: index as usize } })
    } else {
        None
    }
}

/// What is formatted for the first `n` entries of a layout.
pub open spec fn entry_formats(
    partitions: Seq<LayoutPartition>,
    old: nat,
    facts: BootstrapFacts,
    n: nat,
) -> Seq<FormatStep>
    decreases n,
{
    if n == 0 {
        Seq::empty()
    } else {
        let before = entry_formats(partitions, old, facts, (n - 1) as nat);
        match entry_format(partitions, old, facts, n - 1) {
            Some(step) => before.push(step),
            None => before,
        }
    }
}

/// What is formatted after the disk was repartitioned; `old` are the numbers of the
/// partitions that it had before.
pub open spec fn formats(layout: SystemLayout, old: Seq<u8>, facts: BootstrapFacts) -> Seq<
    FormatStep,
> {
    match layout {
        SystemLayout::Mbr(partitions) => entry_formats(
            partitions@,
            old.len(),
            facts,
            partitions@.len(),
        ),
        SystemLayout::Gpt(partitions) => entry_formats(
            partitions@,
            old.len(),
            facts,
            partitions@.len(),
        ),
        SystemLayout::Usual { .. } => if is_new(old, facts.data_number()) {
            seq![FormatStep { partition: facts.data_number(), kind: FormatKind::Driver }]
        } else {
            Seq::empty()
        },
        SystemLayout::Unchanged => Seq::empty(),
    }
}

fn plan_entries(partitions: &Vec<LayoutPartition>, old: usize, facts: &BootstrapFacts) -> (r: Vec<
    FormatStep,
>)
    ensures
        r@ == entry_formats(partitions@, old as nat, *facts, partitions@.len()),
{
    let number: u32 = facts.data_partition_number();
    let mut r: Vec<FormatStep> = Vec::new();
    let mut i: usize = 0;
    while i < partitions.len()
        invariant
            i <= partitions@.len(),
            number == facts.data_number(),
            r@ == entry_formats(partitions@, old as nat, *facts, i as nat),
        decreases partitions@.len() - i,
    {
        if i >= old {
            let partition: u32 = (i + 1) as u32;
            if partition == number && facts.has_driver {
                r.push(FormatStep { partition, kind: FormatKind::Driver });
            } else if partitions[i].filesystem.is_some() {
                r.push(FormatStep { partition, kind: FormatKind::Filesystem { index: i } });
            }
        }
        i = i + 1;
    }
    r
}

/// What is formatted after the disk was repartitioned.
pub fn plan_formats(layout: &SystemLayout, old: &Vec<u8>, facts: &BootstrapFacts) -> (r: Vec<
    FormatStep,
>)
    ensures
        r@ == formats(*layout, old@, *facts),
{
    match layout {
        SystemLayout::Mbr(partitions) => plan_entries(partitions, old.len(), facts),
        SystemLayout::Gpt(partitions) => plan_entries(partitions, old.len(), facts),
        SystemLayout::Usual { .. } => {
            let mut r: Vec<FormatStep> = Vec::new();
            let number: u32 = facts.data_partition_number();
            if data_partition_is_new(old, number) {
                r.push(FormatStep { partition: number, kind: FormatKind::Driver });
            }
            assert(r@ =~= formats(*layout, old@, *facts));
            r
        },
        SystemLayout::Unchanged => Vec::new(),
    }
}

/// What bootstrapping wants done next.
#[derive(Debug, Clone, Copy, PartialEq, Eq, Structural)]
pub enum BootstrapAction {
    /// Load the `bootstrap` hooks.
    LoadHooks,
    /// Run the `prepare` hooks.
    RunPrepare,
    /// Load the bootstrapping configuration.
    LoadConfig,
    /// Run the `pre-layout` hooks.
    RunPreLayout,
    /// Read the partition table.
    ReadTable,
    /// Compute the new partition table.
    ComputeTable(SchemaChoice),
    /// Write the new partition table.
    WriteTable,
    /// Synchronize the filesystems.
    Sync,
    /// Tell the kernel about the new partitions.
    UpdateKernel,
    /// Format a new partition.
    Format(FormatStep),
    /// Run the `post-layout` hooks.
    RunPostLayout,
    /// Bootstrapping is over.
    Done,
    /// Bootstrapping failed.
    Fail,
}

/// Outcome of an action.
#[derive(Debug)]
pub enum BootstrapEvent {
    /// The action succeeded.
    Done,
    /// The action failed.
    Failed,
    /// The bootstrapping configuration.
    Config(BootstrapConfig),
    /// The numbers of the partitions of the disk.
    Table(Vec<u8>),
    /// Whether the new partition table differs.
    Computed { changed: bool },
}

/// Progress of bootstrapping.
#[derive(Debug, Clone, Copy, PartialEq, Eq, Structural)]
pub enum BootstrapPhase {
    LoadingHooks,
    Preparing,
    LoadingConfig,
    PreLayout,
    ReadingTable,
    Computing,
    Writing,
    Syncing,
    UpdatingKernel,
    Formatting,
    PostLayout,
    Finished,
}

/// Bootstrapping.
#[derive(Debug)]
pub struct Bootstrap {
    pub phase: BootstrapPhase,
    pub facts: BootstrapFacts,
    pub layout: SystemLayout,
    /// Numbers of the partitions that the disk had before.
    pub old: Vec<u8>,
    /// What is formatted.
    pub formats: Vec<FormatStep>,
    /// What is being formatted.
    pub at: usize,
}

/// A phase and the action that begins it.
pub type BootstrapStep = (BootstrapPhase, BootstrapAction);

/// The layout of a configuration.
pub open spec fn resolved_layout(layout: Option<SystemLayout>) -> SystemLayout {
    match layout {
        Some(layout) => layout,
        None => SystemLayout::Usual { system_size: DEFAULT_SYSTEM_SIZE },
    }
}

/// The end of bootstrapping that failed.
pub open spec fn bootstrap_failed() -> BootstrapStep {
    (BootstrapPhase::Finished, BootstrapAction::Fail)
}

/// The step that formats the partition `at`, or what follows the last one.
pub open spec fn to_format(formats: Seq<FormatStep>, at: nat) -> BootstrapStep {
    if at < formats.len() {
        (BootstrapPhase::Formatting, BootstrapAction::Format(formats[at as int]))
    } else {
        (BootstrapPhase::PostLayout, BootstrapAction::RunPostLayout)
    }
}

impl Bootstrap {
    /// While partitions are formatted, they are those that the layout asks for.
    pub open spec fn wf(self) -> bool {
        self.phase is Formatting ==> {
            &&& self.formats@ == formats(self.layout, self.old@, self.facts)
            &&& self.at < self.formats@.len()
        }
    }

    /// The step that follows an outcome.
    pub open spec fn step(self, event: BootstrapEvent) -> BootstrapStep {
        match (self.phase, event) {
            (BootstrapPhase::LoadingHooks, BootstrapEvent::Done) => (
                BootstrapPhase::Preparing,
                BootstrapAction::RunPrepare,
            ),
            (BootstrapPhase::Preparing, BootstrapEvent::Done) => (
                BootstrapPhase::LoadingConfig,
                BootstrapAction::LoadConfig,
            ),
            (BootstrapPhase::LoadingConfig, BootstrapEvent::Config(config)) => if config.disabled
                == Some(true) {
                (BootstrapPhase::Finished, BootstrapAction::Done)
            } else if schema(resolved_layout(config.layout), self.facts.table) is Unchanged {
                (BootstrapPhase::Finished, BootstrapAction::Done)
            } else {
                (BootstrapPhase::PreLayout, BootstrapAction::RunPreLayout)
            },
            (BootstrapPhase::PreLayout, BootstrapEvent::Done) => (
                BootstrapPhase::ReadingTable,
                BootstrapAction::ReadTable,
            ),
            (BootstrapPhase::ReadingTable, BootstrapEvent::Table(_)) => (
                BootstrapPhase::Computing,
                BootstrapAction::ComputeTable(schema(self.layout, self.facts.table)),
            ),
            (BootstrapPhase::Computing, BootstrapEvent::Computed { changed }) => if changed {
                (BootstrapPhase::Writing, BootstrapAction::WriteTable)
            } else {
                (BootstrapPhase::PostLayout, BootstrapAction::RunPostLayout)
            },
            (BootstrapPhase::Writing, BootstrapEvent::Done) => (
                BootstrapPhase::Syncing,
                BootstrapAction::Sync,
            ),
            (BootstrapPhase::Syncing, BootstrapEvent::Done) => (
                BootstrapPhase::UpdatingKernel,
                BootstrapAction::UpdateKernel,
            ),
            (BootstrapPhase::UpdatingKernel, BootstrapEvent::Done) => to_format(
                formats(self.layout, self.old@, self.facts),
                0,
            ),
            (BootstrapPhase::Formatting, BootstrapEvent::Done) => to_format(
                self.formats@,
                (self.at + 1) as nat,
            ),
            (BootstrapPhase::PostLayout, BootstrapEvent::Done) => (
                BootstrapPhase::Finished,
                BootstrapAction::Done,
            ),
            _ => bootstrap_failed(),
        }
    }

    /// The layout after an outcome.
    pub open spec fn next_layout(self, event: BootstrapEvent) -> SystemLayout {
        match (self.phase, event) {
            (BootstrapPhase::LoadingConfig, BootstrapEvent::Config(config)) => resolved_layout(
                config.layout,
            ),
            _ => self.layout,
        }
    }

    /// The partitions that the disk had before, after an outcome.
    pub open spec fn next_old(self, event: BootstrapEvent) -> Seq<u8> {
        match (self.phase, event) {
            (BootstrapPhase::ReadingTable, BootstrapEvent::Table(numbers)) => numbers@,
            _ => self.old@,
        }
    }

    /// Whether an outcome leads from this state to another one and to the next action.
    pub open spec fn follows(
        self,
        event: BootstrapEvent,
        after: Bootstrap,
        action: BootstrapAction,
    ) -> bool {
        &&& after.wf()
        &&& (after.phase, action) == self.step(event)
        &&& after.facts == self.facts
        &&& after.layout == self.next_layout(event)
        &&& after.old@ == self.next_old(event)
        &&& self.phase is UpdatingKernel && action is Format ==> after.at == 0
        &&& self.phase is Formatting && action is Format ==> after.at == self.at + 1
    }

    /// Begins bootstrapping.
    pub fn begin(facts: BootstrapFacts) -> (r: (Bootstrap, BootstrapAction))
        ensures
            r.0.wf(),
            r.0.phase == BootstrapPhase::LoadingHooks,
            r.0.facts == facts,
            r.1 == BootstrapAction::LoadHooks,
    {
        (
            Bootstrap {
                phase: BootstrapPhase::LoadingHooks,
                facts,
                layout: SystemLayout::Unchanged,
                old: Vec::new(),
                formats: Vec::new(),
                at: 0,
            },
            BootstrapAction::LoadHooks,
        )
    }

    fn format_next(&self, at: usize) -> (r: BootstrapStep)
        ensures
            r == to_format(self.formats@, at as nat),
    {
        if at < self.formats.len() {
            (BootstrapPhase::Formatting, BootstrapAction::Format(self.formats[at]))
        } else {
            (BootstrapPhase::PostLayout, BootstrapAction::RunPostLayout)
        }
    }

    /// Takes the outcome of the last action and names the next one.
    pub fn next(&mut self, event: BootstrapEvent) -> (action: BootstrapAction)
        requires
            old(self).wf(),
        ensures
            old(self).follows(event, *final(self), action),
            final(self).wf(),
            (final(self).phase, action) == old(self).step(event),
            final(self).facts == old(self).facts,
            final(self).layout == old(self).next_layout(event),
            final(self).old@ == old(self).next_old(event),
            old(self).phase is UpdatingKernel && action is Format ==> final(self).at == 0,
            old(self).phase is Formatting && action is Format ==> final(self).at == old(self).at
                + 1,
    {
        let (phase, action) = match (self.phase, event) {
            (BootstrapPhase::LoadingHooks, BootstrapEvent::Done) => (
                BootstrapPhase::Preparing,
                BootstrapAction::RunPrepare,
            ),
            (BootstrapPhase::Preparing, BootstrapEvent::Done) => (
                BootstrapPhase::LoadingConfig,
                BootstrapAction::LoadConfig,
            ),
            (BootstrapPhase::LoadingConfig, BootstrapEvent::Config(config)) => {
                let disabled = match config.disabled {
                    Some(disabled) => disabled,
                    None => false,
                };
                self.layout = match config.layout {
                    Some(layout) => layout,
                    None => SystemLayout::Usual { system_size: DEFAULT_SYSTEM_SIZE },
                };
                if disabled {
                    (BootstrapPhase::Finished, BootstrapAction::Done)
                } else {
                    match choose_schema(&self.layout, self.facts.table) {
                        SchemaChoice::Unchanged => (
                            BootstrapPhase::Finished,
                            BootstrapAction::Done,
                        ),
                        _ => (BootstrapPhase::PreLayout, BootstrapAction::RunPreLayout),
                    }
                }
            },
            (BootstrapPhase::PreLayout, BootstrapEvent::Done) => (
                BootstrapPhase::ReadingTable,
                BootstrapAction::ReadTable,
            ),
            (BootstrapPhase::ReadingTable, BootstrapEvent::Table(numbers)) => {
                self.old = numbers;
                (
                    BootstrapPhase::Computing,
                    BootstrapAction::ComputeTable(choose_schema(&self.layout, self.facts.table)),
                )
            },
            (BootstrapPhase::Computing, BootstrapEvent::Computed { changed }) => if changed {
                (BootstrapPhase::Writing, BootstrapAction::WriteTable)
            } else {
                (BootstrapPhase::PostLayout, BootstrapAction::RunPostLayout)
            },
            (BootstrapPhase::Writing, BootstrapEvent::Done) => (
                BootstrapPhase::Syncing,
                BootstrapAction::Sync,
            ),
            (BootstrapPhase::Syncing, BootstrapEvent::Done) => (
                BootstrapPhase::UpdatingKernel,
                BootstrapAction::UpdateKernel,
            ),
            (BootstrapPhase::UpdatingKernel, BootstrapEvent::Done) => {
                self.formats = plan_formats(&self.layout, &self.old, &self.facts);
                self.at = 0;
                self.format_next(0)
            },
            (BootstrapPhase::Formatting, BootstrapEvent::Done) => {
                assert(self.formats@.len() == self.formats.len());
                self.at = self.at + 1;
                self.format_next(self.at)
            },
            (BootstrapPhase::PostLayout, BootstrapEvent::Done) => (
                BootstrapPhase::Finished,
                BootstrapAction::Done,
            ),
            _ => (BootstrapPhase::Finished, BootstrapAction::Fail),
        };
        self.phase = phase;
        action
    }
}

/// Whether a partition that is formatted was added by the repartitioning.
pub open spec fn formats_only_new(layout: SystemLayout, old: Seq<u8>, step: FormatStep) -> bool {
    match layout {
        SystemLayout::Usual { .. } => is_new(old, step.partition),
        _ => exists|index: int|
            old.len() <= index && step.partition == #[trigger] ((index + 1) as u32),
    }
}

/// Nothing that was on the disk before is formatted: with the usual partitions, the data
/// partition only where its number is new; with listed ones, only entries beyond those
/// that the disk had.
pub proof fn law_existing_partitions_are_kept(
    layout: SystemLayout,
    old: Seq<u8>,
    facts: BootstrapFacts,
    i: int,
)
    requires
        0 <= i < formats(layout, old, facts).len(),
    ensures
        formats_only_new(layout, old, formats(layout, old, facts)[i]),
{
    match layout {
        SystemLayout::Mbr(partitions) => {
            lemma_entries_are_new(partitions@, old.len(), facts, partitions@.len(), i);
        },
        SystemLayout::Gpt(partitions) => {
            lemma_entries_are_new(partitions@, old.len(), facts, partitions@.len(), i);
        },
        _ => {},
    }
}

proof fn lemma_entries_are_new(
    partitions: Seq<LayoutPartition>,
    old: nat,
    facts: BootstrapFacts,
    n: nat,
    i: int,
)
    requires
        0 <= i < entry_formats(partitions, old, facts, n).len(),
    ensures
        exists|index: int|
            old <= index && entry_formats(partitions, old, facts, n)[i].partition
                == #[trigger] ((index + 1) as u32),
    decreases n,
{
    if n > 0 {
        let before = entry_formats(partitions, old, facts, (n - 1) as nat);
        if i < before.len() {
            lemma_entries_are_new(partitions, old, facts, (n - 1) as nat, i);
        } else {
            let index = n - 1;
            assert(entry_formats(partitions, old, facts, n)[i].partition == (index + 1) as u32);
        }
    }
}

/// Partitions that are listed are taken as they are. The generic ones suit the table of the
/// disk and have system partitions of the size that is asked for, and they are taken only
/// where the layout does not list any.
pub proof fn law_partitions_suit_the_disk(layout: SystemLayout, table: TableType)
    ensures
        match schema(layout, table) {
            SchemaChoice::Listed => layout is Mbr || layout is Gpt,
            SchemaChoice::GenericEfi { system_size } => table is Gpt && layout == (
            SystemLayout::Usual { system_size }),
            SchemaChoice::GenericMbr { system_size } => table is Mbr && layout == (
            SystemLayout::Usual { system_size }),
            SchemaChoice::Unchanged => layout is Unchanged,
        },
{
}

/// The data partition is the configured one, or else the last of the generic ones.
pub proof fn law_data_partition_is_the_configured_one(facts: BootstrapFacts, number: u32)
    ensures
        facts.data_partition == Some(number) ==> facts.data_number() == number,
        facts.data_partition is None && facts.table is Mbr ==> facts.data_number() == 7,
        facts.data_partition is None && facts.table is Gpt ==> facts.data_number() == 6,
{
}

} // verus!
