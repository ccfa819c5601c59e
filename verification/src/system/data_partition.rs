//! Data partition drivers.
//!
//! A driver owns the data partition's lifecycle: bootstrap-time `format`, per-boot
//! `mount`, and `wipe` for cryptographic factory reset. Each is a plan: the steps that
//! are to be taken, and what follows when one of them fails.

use vstd::prelude::*;
use crate::digest::{encode_hex, hex_text};
use crate::path::{join, path_join};
use crate::script::{
    is_plan, no_steps, owned, push_step, push_steps, run, run_step, run_with, run_with_step, step_views,
    texts, OnFailure, OsAction, OsStep, Plan, PlanOf, Step, StepView,
};
use crate::text::{
    clone_strings, concat, decimal, join as join_texts, joined, opt_view, to_decimal, views,
};

verus! {

/// Settings of the plaintext driver.
#[derive(Debug)]
pub struct PlaintextExt4DriverConfig {
    pub label: Option<String>,
    pub additional_options: Option<Vec<String>>,
}

/// Settings of the driver that takes a passphrase from a file.
#[derive(Debug)]
pub struct Luks2PassphraseDriverConfig {
    pub passphrase_file: String,
    pub label: Option<String>,
    pub mapper_name: Option<String>,
    pub additional_mkfs_options: Option<Vec<String>>,
}

/// Settings of the driver that seals the key by a TPM.
#[derive(Debug)]
pub struct Luks2Tpm2DriverConfig {
    pub device: Option<String>,
    pub pcrs: Option<Vec<u32>>,
    pub label: Option<String>,
    pub mapper_name: Option<String>,
    pub additional_mkfs_options: Option<Vec<String>>,
}

/// Settings of the driver that is made of scripts.
#[derive(Debug)]
pub struct CustomDataPartitionDriverConfig {
    pub format_script: Option<String>,
    pub mount_script: String,
    pub wipe_script: Option<String>,
}

/// The driver that is configured.
#[derive(Debug)]
pub enum DataPartitionDriverConfig {
    PlaintextExt4(PlaintextExt4DriverConfig),
    Luks2Passphrase(Luks2PassphraseDriverConfig),
    Luks2Tpm2(Luks2Tpm2DriverConfig),
    Custom(CustomDataPartitionDriverConfig),
}

/// Settings of a partition.
#[derive(Debug)]
pub struct PartitionConfig {
    /// Number of the partition on the system disk.
    pub partition: Option<u32>,
    /// Path of the partition's device.
    pub device: Option<String>,
    pub mount_script: Option<String>,
    pub driver: Option<DataPartitionDriverConfig>,
}

impl Default for PartitionConfig {
    fn default() -> (r: Self)
        ensures
            r.partition is None,
            r.device is None,
            r.mount_script is None,
            r.driver is None,
    {
        PartitionConfig { partition: None, device: None, mount_script: None, driver: None }
    }
}

/// Inputs threaded through to driver lifecycle calls.
#[derive(Debug)]
pub struct DriverContext {
    pub device: String,
    pub mount_point: String,
}

impl DriverContext {
    pub fn new(device: String, mount_point: String) -> (r: Self)
        ensures
            r.device == device,
            r.mount_point == mount_point,
    {
        DriverContext { device, mount_point }
    }
}

/// What a driver needs to know of the running system.
#[derive(Debug)]
pub struct DriverFacts {
    /// Whether the passphrase file is there.
    pub passphrase_present: bool,
    /// Whether the device of the opened volume is there.
    pub mapper_present: bool,
    /// Where a throwaway key can be kept, in memory only.
    pub key_path: String,
    /// Random bytes for the throwaway key.
    pub entropy: Vec<u8>,
}

/// Random bytes of a throwaway key.
pub const ENTROPY_LEN: usize = 32;

/// Why a driver refuses.
#[derive(Debug, Clone, Copy, PartialEq, Eq, Structural)]
pub enum DriverError {
    /// Passphrase file not found for LUKS2 data partition.
    PassphraseMissing,
    /// Custom data partition driver has no `wipe-script`; cannot perform `data wipe`.
    NoWipeScript,
}

/// The steps of a driver, and why nothing can follow them.
pub type PlanView = PlanOf<DriverError>;

/// Lifecycle hooks for a data partition.
pub trait DataPartitionDriver {
    spec fn format_plan(&self, ctx: DriverContext, facts: DriverFacts) -> PlanView;

    spec fn mount_plan(&self, ctx: DriverContext, facts: DriverFacts) -> PlanView;

    spec fn erase_plan(&self, ctx: DriverContext) -> PlanView;

    spec fn reformats(&self) -> bool;

    /// Initialise a fresh partition (encryption layer + filesystem).
    fn format(&self, ctx: &DriverContext, facts: &DriverFacts) -> (r: Plan<DriverError>)
        ensures
            is_plan(r, self.format_plan(*ctx, *facts)),
    ;

    /// Make the partition available at the configured mount point.
    fn mount(&self, ctx: &DriverContext, facts: &DriverFacts) -> (r: Plan<DriverError>)
        ensures
            is_plan(r, self.mount_plan(*ctx, *facts)),
    ;

    /// Render existing partition contents unrecoverable: the part of a wipe that comes
    /// before the format.
    fn erase(&self, ctx: &DriverContext) -> (r: Plan<DriverError>)
        ensures
            is_plan(r, self.erase_plan(*ctx)),
    ;

    /// Whether a wipe formats the partition once it is erased.
    fn formats_after_erase(&self) -> (r: bool)
        ensures
            r == self.reformats(),
    ;

    /// Render existing partition contents unrecoverable and leave the partition in a
    /// fresh, mountable state. For encrypting drivers this rotates the master key; for
    /// plaintext drivers it discards and reformats.
    fn wipe(&self, ctx: &DriverContext, facts: &DriverFacts) -> (r: Plan<DriverError>)
        ensures
            is_plan(
                r,
                if self.reformats() {
                    (
                        self.erase_plan(*ctx).0 + self.format_plan(*ctx, *facts).0,
                        self.format_plan(*ctx, *facts).1,
                    )
                } else {
                    self.erase_plan(*ctx)
                },
            ),
    {
        let erase = self.erase(ctx);
        if !self.formats_after_erase() {
            return erase;
        }
        let mut steps = erase.steps;
        let format = self.format(ctx, facts);
        push_steps(&mut steps, format.steps);
        Plan { steps, refusal: format.refusal }
    }
}

/// The text that is given, or the default.
pub open spec fn text_or(o: Option<String>, default: Seq<char>) -> Seq<char> {
    match o {
        Some(text) => text@,
        None => default,
    }
}

fn get_text_or(o: &Option<String>, default: &str) -> (r: String)
    ensures
        r@ == text_or(*o, default@),
{
    match o {
        Some(text) => text.clone(),
        None => default.to_owned(),
    }
}

/// The list that is given, or none.
pub open spec fn list_or_empty(o: Option<Vec<String>>) -> Seq<Seq<char>> {
    match o {
        Some(list) => views(list@),
        None => Seq::empty(),
    }
}

fn get_list_or_empty(o: &Option<Vec<String>>) -> (r: Vec<String>)
    ensures
        views(r@) == list_or_empty(*o),
{
    match o {
        Some(list) => clone_strings(list),
        None => {
            let r: Vec<String> = Vec::new();
            assert(views(r@) =~= Seq::<Seq<char>>::empty());
            r
        },
    }
}

/// The device of an opened volume.
pub open spec fn mapper_path(name: Seq<char>) -> Seq<char> {
    path_join("/dev/mapper"@, name)
}

/// The device of an opened volume.
pub fn mapper_device(name: &str) -> (r: String)
    ensures
        r@ == mapper_path(name@),
{
    join("/dev/mapper", name)
}

/// Variables that keep `cryptsetup` from waiting for udev, which does not run yet.
pub open spec fn without_udev() -> Seq<Seq<char>> {
    seq!["DM_DISABLE_UDEV"@, "1"@]
}

pub open spec fn fsck_step(device: Seq<char>) -> StepView {
    run_step(seq!["/usr/bin/env"@, "fsck"@, "-p"@, device], OnFailure::Ignore)
}

pub open spec fn mount_step(device: Seq<char>, mount_point: Seq<char>) -> StepView {
    run_step(
        seq!["/usr/bin/env"@, "mount"@, "-o"@, "noatime"@, device, mount_point],
        OnFailure::Abort,
    )
}

pub open spec fn discard_step(device: Seq<char>) -> StepView {
    run_step(seq!["/usr/bin/env"@, "blkdiscard"@, "--force"@, device], OnFailure::Ignore)
}

/// Loading the device mapper, where it is not there yet.
pub open spec fn mapper_module_step() -> StepView {
    Step {
        action: OsAction::RunUnlessPresent {
            path: "/dev/mapper/control"@,
            args: seq!["/usr/bin/env"@, "modprobe"@, "dm_mod"@],
        },
        on_failure: OnFailure::Ignore,
    }
}

/// Destroying the keys of an encrypted volume.
pub open spec fn erase_volume_steps(device: Seq<char>) -> Seq<StepView> {
    seq![mapper_module_step(), erase_step(device)]
}

pub open spec fn luks_format_step(device: Seq<char>, key: Seq<char>) -> StepView {
    run_with_step(
        seq![
            "/usr/bin/env"@,
            "cryptsetup"@,
            "luksFormat"@,
            "--type"@,
            "luks2"@,
            "--batch-mode"@,
            "--key-file"@,
            key,
            device,
        ],
        without_udev(),
        OnFailure::Abort,
    )
}

/// Creating the device nodes of opened volumes.
pub open spec fn nodes_step() -> StepView {
    run_step(seq!["/usr/bin/env"@, "dmsetup"@, "mknodes"@], OnFailure::Abort)
}

pub open spec fn open_with_key_steps(
    device: Seq<char>,
    key: Seq<char>,
    mapper: Seq<char>,
) -> Seq<StepView> {
    seq![
        run_with_step(
            seq![
                "/usr/bin/env"@,
                "cryptsetup"@,
                "open"@,
                "--type"@,
                "luks2"@,
                "--batch-mode"@,
                "--key-file"@,
                key,
                device,
                mapper,
            ],
            without_udev(),
            OnFailure::Abort,
        ),
        nodes_step(),
    ]
}

pub open spec fn open_with_token_steps(device: Seq<char>, mapper: Seq<char>) -> Seq<StepView> {
    seq![
        run_with_step(
            seq![
                "/usr/bin/env"@,
                "cryptsetup"@,
                "open"@,
                "--token-only"@,
                "--batch-mode"@,
                device,
                mapper,
            ],
            without_udev(),
            OnFailure::Abort,
        ),
        nodes_step(),
    ]
}

pub open spec fn close_step(mapper: Seq<char>) -> StepView {
    run_with_step(
        seq!["/usr/bin/env"@, "cryptsetup"@, "close"@, mapper],
        without_udev(),
        OnFailure::Abort,
    )
}

pub open spec fn erase_step(device: Seq<char>) -> StepView {
    run_with_step(
        seq!["/usr/bin/env"@, "cryptsetup"@, "erase"@, "--batch-mode"@, device],
        without_udev(),
        OnFailure::Abort,
    )
}

pub open spec fn ext4_step(
    device: Seq<char>,
    label: Seq<char>,
    options: Seq<Seq<char>>,
    on_failure: OnFailure,
) -> StepView {
    Step { action: OsAction::MakeExt4 { device, label, options }, on_failure }
}

/// Creating an encrypted volume with a filesystem, and leaving it closed. A volume that
/// was opened is closed again though the filesystem cannot be created.
pub open spec fn encrypted_steps(
    device: Seq<char>,
    key: Seq<char>,
    mapper: Seq<char>,
    label: Seq<char>,
    options: Seq<Seq<char>>,
) -> Seq<StepView> {
    seq![luks_format_step(device, key)] + open_with_key_steps(device, key, mapper) + seq![
        ext4_step(mapper_path(mapper), label, options, OnFailure::AfterNext),
        close_step(mapper),
    ]
}

/// Mounting the filesystem of an encrypted volume that is opened by `opening` unless it
/// is open already.
pub open spec fn mount_encrypted_steps(
    opening: Seq<StepView>,
    mapper: Seq<char>,
    mount_point: Seq<char>,
    facts: DriverFacts,
) -> Seq<StepView> {
    seq![mapper_module_step()] + (if facts.mapper_present {
        Seq::empty()
    } else {
        opening
    }) + seq![fsck_step(mapper_path(mapper)), mount_step(mapper_path(mapper), mount_point)]
}

fn fsck_best_effort(device: &str) -> (r: OsStep)
    ensures
        r@ == fsck_step(device@),
{
    let args = ["/usr/bin/env", "fsck", "-p", device];
    assert(texts(args@) =~= seq!["/usr/bin/env"@, "fsck"@, "-p"@, device@]);
    run(&args, OnFailure::Ignore)
}

fn mount_noatime(device: &str, mount_point: &str) -> (r: OsStep)
    ensures
        r@ == mount_step(device@, mount_point@),
{
    let args = ["/usr/bin/env", "mount", "-o", "noatime", device, mount_point];
    assert(texts(args@)
        =~= seq!["/usr/bin/env"@, "mount"@, "-o"@, "noatime"@, device@, mount_point@]);
    run(&args, OnFailure::Abort)
}

fn discard(device: &str) -> (r: OsStep)
    ensures
        r@ == discard_step(device@),
{
    let args = ["/usr/bin/env", "blkdiscard", "--force", device];
    assert(texts(args@) =~= seq!["/usr/bin/env"@, "blkdiscard"@, "--force"@, device@]);
    run(&args, OnFailure::Ignore)
}

fn ensure_dm_module() -> (r: Vec<OsStep>)
    ensures
        step_views(r@) == seq![mapper_module_step()],
{
    let args = ["/usr/bin/env", "modprobe", "dm_mod"];
    assert(texts(args@) =~= seq!["/usr/bin/env"@, "modprobe"@, "dm_mod"@]);
    let mut steps = no_steps();
    push_step(
        &mut steps,
        Step {
            action: OsAction::RunUnlessPresent {
                path: "/dev/mapper/control".to_owned(),
                args: owned(&args),
            },
            on_failure: OnFailure::Ignore,
        },
    );
    assert(step_views(steps@) =~= seq![mapper_module_step()]);
    steps
}

fn erase_volume(device: &str) -> (r: Plan<DriverError>)
    ensures
        is_plan(r, (erase_volume_steps(device@), None)),
{
    let mut steps = ensure_dm_module();
    push_step(&mut steps, cryptsetup_erase(device));
    assert(step_views(steps@) =~= erase_volume_steps(device@));
    Plan { steps, refusal: None }
}

fn run_without_udev(args: &[&str]) -> (r: OsStep)
    ensures
        r@ == run_with_step(texts(args@), without_udev(), OnFailure::Abort),
{
    let vars = ["DM_DISABLE_UDEV", "1"];
    assert(texts(vars@) =~= without_udev());
    run_with(args, &vars, OnFailure::Abort)
}

fn luks2_format_with_keyfile(device: &str, key: &str) -> (r: OsStep)
    ensures
        r@ == luks_format_step(device@, key@),
{
    let args = [
        "/usr/bin/env",
        "cryptsetup",
        "luksFormat",
        "--type",
        "luks2",
        "--batch-mode",
        "--key-file",
        key,
        device,
    ];
    assert(texts(args@) =~= seq![
        "/usr/bin/env"@,
        "cryptsetup"@,
        "luksFormat"@,
        "--type"@,
        "luks2"@,
        "--batch-mode"@,
        "--key-file"@,
        key@,
        device@,
    ]);
    run_without_udev(&args)
}

fn dmsetup_mknodes() -> (r: OsStep)
    ensures
        r@ == nodes_step(),
{
    let args = ["/usr/bin/env", "dmsetup", "mknodes"];
    assert(texts(args@) =~= seq!["/usr/bin/env"@, "dmsetup"@, "mknodes"@]);
    run(&args, OnFailure::Abort)
}

fn cryptsetup_open_with_keyfile(device: &str, key: &str, mapper: &str) -> (r: Vec<OsStep>)
    ensures
        step_views(r@) == open_with_key_steps(device@, key@, mapper@),
{
    let args = [
        "/usr/bin/env",
        "cryptsetup",
        "open",
        "--type",
        "luks2",
        "--batch-mode",
        "--key-file",
        key,
        device,
        mapper,
    ];
    assert(texts(args@) =~= seq![
        "/usr/bin/env"@,
        "cryptsetup"@,
        "open"@,
        "--type"@,
        "luks2"@,
        "--batch-mode"@,
        "--key-file"@,
        key@,
        device@,
        mapper@,
    ]);
    let mut steps = no_steps();
    push_step(&mut steps, run_without_udev(&args));
    push_step(&mut steps, dmsetup_mknodes());
    assert(step_views(steps@) =~= open_with_key_steps(device@, key@, mapper@));
    steps
}

fn cryptsetup_open_token_only(device: &str, mapper: &str) -> (r: Vec<OsStep>)
    ensures
        step_views(r@) == open_with_token_steps(device@, mapper@),
{
    let args = [
        "/usr/bin/env",
        "cryptsetup",
        "open",
        "--token-only",
        "--batch-mode",
        device,
        mapper,
    ];
    assert(texts(args@) =~= seq![
        "/usr/bin/env"@,
        "cryptsetup"@,
        "open"@,
        "--token-only"@,
        "--batch-mode"@,
        device@,
        mapper@,
    ]);
    let mut steps = no_steps();
    push_step(&mut steps, run_without_udev(&args));
    push_step(&mut steps, dmsetup_mknodes());
    assert(step_views(steps@) =~= open_with_token_steps(device@, mapper@));
    steps
}

fn cryptsetup_close(mapper: &str) -> (r: OsStep)
    ensures
        r@ == close_step(mapper@),
{
    let args = ["/usr/bin/env", "cryptsetup", "close", mapper];
    assert(texts(args@) =~= seq!["/usr/bin/env"@, "cryptsetup"@, "close"@, mapper@]);
    run_without_udev(&args)
}

fn cryptsetup_erase(device: &str) -> (r: OsStep)
    ensures
        r@ == erase_step(device@),
{
    let args = ["/usr/bin/env", "cryptsetup", "erase", "--batch-mode", device];
    assert(texts(args@)
        =~= seq!["/usr/bin/env"@, "cryptsetup"@, "erase"@, "--batch-mode"@, device@]);
    run_without_udev(&args)
}

/// A step that creates an Ext4 filesystem.
pub fn make_ext4(device: &str, label: &str, options: &Vec<String>, on_failure: OnFailure) -> (r:
    OsStep)
    ensures
        r@ == ext4_step(device@, label@, views(options@), on_failure),
{
    Step {
        action: OsAction::MakeExt4 {
            device: device.to_owned(),
            label: label.to_owned(),
            options: clone_strings(options),
        },
        on_failure,
    }
}

fn format_encrypted(
    device: &str,
    key: &str,
    mapper: &str,
    label: &str,
    options: &Vec<String>,
) -> (r: Vec<OsStep>)
    ensures
        step_views(r@) == encrypted_steps(device@, key@, mapper@, label@, views(options@)),
{
    let mut steps = no_steps();
    push_step(&mut steps, luks2_format_with_keyfile(device, key));
    push_steps(&mut steps, cryptsetup_open_with_keyfile(device, key, mapper));
    let mapped = mapper_device(mapper);
    push_step(&mut steps, make_ext4(mapped.as_str(), label, options, OnFailure::AfterNext));
    push_step(&mut steps, cryptsetup_close(mapper));
    assert(step_views(steps@) =~= encrypted_steps(
        device@,
        key@,
        mapper@,
        label@,
        views(options@),
    ));
    steps
}

fn mount_encrypted(opening: Vec<OsStep>, mapper: &str, mount_point: &str, facts: &DriverFacts) -> (r:
    Vec<OsStep>)
    ensures
        step_views(r@) == mount_encrypted_steps(
            step_views(opening@),
            mapper@,
            mount_point@,
            *facts,
        ),
{
    let ghost open_views = step_views(opening@);
    let mut steps = ensure_dm_module();
    if !facts.mapper_present {
        push_steps(&mut steps, opening);
    }
    let mapped = mapper_device(mapper);
    push_step(&mut steps, fsck_best_effort(mapped.as_str()));
    push_step(&mut steps, mount_noatime(mapped.as_str(), mount_point));
    assert(step_views(steps@) =~= mount_encrypted_steps(open_views, mapper@, mount_point@, *facts));
    steps
}

/// Default driver: bare Ext4 on the partition device.
#[derive(Debug)]
pub struct PlaintextExt4Driver {
    pub label: String,
    pub additional_options: Vec<String>,
}

impl PlaintextExt4Driver {
    pub fn new(config: PlaintextExt4DriverConfig) -> (r: Self)
        ensures
            r.label@ == text_or(config.label, "data"@),
            views(r.additional_options@) == list_or_empty(config.additional_options),
    {
        PlaintextExt4Driver {
            label: get_text_or(&config.label, "data"),
            additional_options: get_list_or_empty(&config.additional_options),
        }
    }
}

impl Default for PlaintextExt4Driver {
    fn default() -> (r: Self)
        ensures
            r.label@ == "data"@,
            views(r.additional_options@) == Seq::<Seq<char>>::empty(),
    {
        Self::new(PlaintextExt4DriverConfig { label: None, additional_options: None })
    }
}

impl PlaintextExt4Driver {
    pub open spec fn format_step(self, ctx: DriverContext) -> StepView {
        ext4_step(ctx.device@, self.label@, views(self.additional_options@), OnFailure::Abort)
    }
}

impl DataPartitionDriver for PlaintextExt4Driver {
    open spec fn format_plan(&self, ctx: DriverContext, facts: DriverFacts) -> PlanView {
        (seq![self.format_step(ctx)], None)
    }

    open spec fn mount_plan(&self, ctx: DriverContext, facts: DriverFacts) -> PlanView {
        (seq![fsck_step(ctx.device@), mount_step(ctx.device@, ctx.mount_point@)], None)
    }

    open spec fn erase_plan(&self, ctx: DriverContext) -> PlanView {
        (seq![discard_step(ctx.device@)], None)
    }

    open spec fn reformats(&self) -> bool {
        true
    }

    fn format(&self, ctx: &DriverContext, facts: &DriverFacts) -> (r: Plan<DriverError>) {
        let mut steps = no_steps();
        push_step(
            &mut steps,
            make_ext4(
                ctx.device.as_str(),
                self.label.as_str(),
                &self.additional_options,
                OnFailure::Abort,
            ),
        );
        assert(step_views(steps@) =~= seq![self.format_step(*ctx)]);
        Plan { steps, refusal: None }
    }

    fn mount(&self, ctx: &DriverContext, facts: &DriverFacts) -> (r: Plan<DriverError>) {
        let mut steps = no_steps();
        push_step(&mut steps, fsck_best_effort(ctx.device.as_str()));
        push_step(&mut steps, mount_noatime(ctx.device.as_str(), ctx.mount_point.as_str()));
        assert(step_views(steps@) =~= seq![
            fsck_step(ctx.device@),
            mount_step(ctx.device@, ctx.mount_point@),
        ]);
        Plan { steps, refusal: None }
    }

    fn erase(&self, ctx: &DriverContext) -> (r: Plan<DriverError>) {
        // The discard lets the storage drop blocks where it can; the reformat is what
        // makes the partition usable again.
        let mut steps = no_steps();
        push_step(&mut steps, discard(ctx.device.as_str()));
        assert(step_views(steps@) =~= seq![discard_step(ctx.device@)]);
        Plan { steps, refusal: None }
    }

    fn formats_after_erase(&self) -> (r: bool) {
        true
    }
}

/// LUKS2 driver with the passphrase loaded from a file.
///
/// **Not** a stand-alone production encryption mode: a passphrase living on plaintext
/// flash defeats the encryption. Useful for testing and for out-of-band-delivered keys
/// that are never persisted locally.
#[derive(Debug)]
pub struct Luks2PassphraseDriver {
    pub config: Luks2PassphraseDriverConfig,
}

impl Luks2PassphraseDriver {
    pub fn new(config: Luks2PassphraseDriverConfig) -> (r: Self)
        ensures
            r.config == config,
    {
        Luks2PassphraseDriver { config }
    }

    pub open spec fn label_text(self) -> Seq<char> {
        text_or(self.config.label, "data"@)
    }

    pub open spec fn mapper_text(self) -> Seq<char> {
        text_or(self.config.mapper_name, "rugix-data"@)
    }

    fn label(&self) -> (r: String)
        ensures
            r@ == self.label_text(),
    {
        get_text_or(&self.config.label, "data")
    }

    fn mapper_name(&self) -> (r: String)
        ensures
            r@ == self.mapper_text(),
    {
        get_text_or(&self.config.mapper_name, "rugix-data")
    }

    /// Formatting once the device mapper is there.
    pub open spec fn volume_steps(self, ctx: DriverContext) -> Seq<StepView> {
        encrypted_steps(
            ctx.device@,
            self.config.passphrase_file@,
            self.mapper_text(),
            self.label_text(),
            list_or_empty(self.config.additional_mkfs_options),
        )
    }

    pub open spec fn format_steps(self, ctx: DriverContext, facts: DriverFacts) -> Seq<StepView> {
        seq![mapper_module_step()] + self.volume_steps(ctx)
    }

    fn format_volume(&self, ctx: &DriverContext) -> (r: Vec<OsStep>)
        ensures
            step_views(r@) == self.volume_steps(*ctx),
    {
        let options = get_list_or_empty(&self.config.additional_mkfs_options);
        format_encrypted(
            ctx.device.as_str(),
            self.config.passphrase_file.as_str(),
            self.mapper_name().as_str(),
            self.label().as_str(),
            &options,
        )
    }
}

impl DataPartitionDriver for Luks2PassphraseDriver {
    open spec fn format_plan(&self, ctx: DriverContext, facts: DriverFacts) -> PlanView {
        if facts.passphrase_present {
            (self.format_steps(ctx, facts), None)
        } else {
            (Seq::empty(), Some(DriverError::PassphraseMissing))
        }
    }

    open spec fn mount_plan(&self, ctx: DriverContext, facts: DriverFacts) -> PlanView {
        if facts.passphrase_present {
            (
                mount_encrypted_steps(
                    open_with_key_steps(
                        ctx.device@,
                        self.config.passphrase_file@,
                        self.mapper_text(),
                    ),
                    self.mapper_text(),
                    ctx.mount_point@,
                    facts,
                ),
                None,
            )
        } else {
            (Seq::empty(), Some(DriverError::PassphraseMissing))
        }
    }

    /// The previous key is destroyed, whatever comes of the format.
    open spec fn erase_plan(&self, ctx: DriverContext) -> PlanView {
        (erase_volume_steps(ctx.device@), None)
    }

    open spec fn reformats(&self) -> bool {
        true
    }

    fn format(&self, ctx: &DriverContext, facts: &DriverFacts) -> (r: Plan<DriverError>) {
        if !facts.passphrase_present {
            return Plan { steps: no_steps(), refusal: Some(DriverError::PassphraseMissing) };
        }
        let mut steps = ensure_dm_module();
        push_steps(&mut steps, self.format_volume(ctx));
        Plan { steps, refusal: None }
    }

    fn mount(&self, ctx: &DriverContext, facts: &DriverFacts) -> (r: Plan<DriverError>) {
        if !facts.passphrase_present {
            return Plan { steps: no_steps(), refusal: Some(DriverError::PassphraseMissing) };
        }
        let mapper = self.mapper_name();
        let opening = cryptsetup_open_with_keyfile(
            ctx.device.as_str(),
            self.config.passphrase_file.as_str(),
            mapper.as_str(),
        );
        let steps = mount_encrypted(opening, mapper.as_str(), ctx.mount_point.as_str(), facts);
        Plan { steps, refusal: None }
    }

    fn erase(&self, ctx: &DriverContext) -> (r: Plan<DriverError>) {
        erase_volume(ctx.device.as_str())
    }

    fn formats_after_erase(&self) -> (r: bool) {
        true
    }
}

/// LUKS2 driver with the unseal key sealed by a TPM 2.0 device.
///
/// At format time the partition is formatted with a throwaway random passphrase, the TPM
/// is enrolled, and the throwaway slot is wiped, which leaves the TPM as the only unseal
/// path. At unlock time the TPM is asked to unseal, and no passphrase touches local
/// flash.
#[derive(Debug)]
pub struct Luks2Tpm2Driver {
    pub config: Luks2Tpm2DriverConfig,
}

/// Numbers in decimal, up to the `n`-th.
pub open spec fn decimals(numbers: Seq<u32>, n: nat) -> Seq<Seq<char>>
    decreases n,
{
    if n == 0 {
        Seq::empty()
    } else {
        decimals(numbers, (n - 1) as nat).push(decimal(numbers[n - 1] as nat))
    }
}

impl Luks2Tpm2Driver {
    pub fn new(config: Luks2Tpm2DriverConfig) -> (r: Self)
        ensures
            r.config == config,
    {
        Luks2Tpm2Driver { config }
    }

    pub open spec fn label_text(self) -> Seq<char> {
        text_or(self.config.label, "data"@)
    }

    pub open spec fn mapper_text(self) -> Seq<char> {
        text_or(self.config.mapper_name, "rugix-data"@)
    }

    pub open spec fn device_text(self) -> Seq<char> {
        text_or(self.config.device, "auto"@)
    }

    /// The registers that the key is bound to, unless there are none.
    pub open spec fn pcrs_text(self) -> Option<Seq<char>> {
        match self.config.pcrs {
            Some(pcrs) => if pcrs@.len() == 0 {
                None
            } else {
                Some(joined(decimals(pcrs@, pcrs@.len()), "+"@))
            },
            None => None,
        }
    }

    fn label(&self) -> (r: String)
        ensures
            r@ == self.label_text(),
    {
        get_text_or(&self.config.label, "data")
    }

    fn mapper_name(&self) -> (r: String)
        ensures
            r@ == self.mapper_text(),
    {
        get_text_or(&self.config.mapper_name, "rugix-data")
    }

    fn device_arg(&self) -> (r: String)
        ensures
            r@ == self.device_text(),
    {
        get_text_or(&self.config.device, "auto")
    }

    fn pcrs_arg(&self) -> (r: Option<String>)
        ensures
            opt_view(r) == self.pcrs_text(),
    {
        let pcrs = match &self.config.pcrs {
            Some(pcrs) => pcrs,
            None => return None,
        };
        if pcrs.len() == 0 {
            return None;
        }
        let mut parts: Vec<String> = Vec::new();
        let mut i: usize = 0;
        assert(views(parts@) =~= decimals(pcrs@, 0));
        while i < pcrs.len()
            invariant
                i <= pcrs@.len(),
                views(parts@) == decimals(pcrs@, i as nat),
            decreases pcrs@.len() - i,
        {
            let ghost before = views(parts@);
            parts.push(to_decimal(pcrs[i] as u64));
            i = i + 1;
            assert(views(parts@) =~= before.push(decimal(pcrs@[i - 1] as nat)));
        }
        Some(join_texts(&parts, "+"))
    }

    /// Enrolling the TPM.
    pub open spec fn enroll_step(self, device: Seq<char>, key: Seq<char>) -> StepView {
        let start = seq![
            "/usr/bin/env"@,
            "systemd-cryptenroll"@,
            "--unlock-key-file"@,
            key,
            "--tpm2-device="@ + self.device_text(),
        ];
        run_step(
            match self.pcrs_text() {
                Some(pcrs) => start.push("--tpm2-pcrs="@ + pcrs).push(device),
                None => start.push(device),
            },
            OnFailure::Abort,
        )
    }

    /// Dropping the throwaway passphrase.
    pub open spec fn drop_password_step(device: Seq<char>) -> StepView {
        run_step(
            seq!["/usr/bin/env"@, "systemd-cryptenroll"@, "--wipe-slot=password"@, device],
            OnFailure::Abort,
        )
    }

    pub open spec fn format_steps(self, ctx: DriverContext, facts: DriverFacts) -> Seq<StepView> {
        seq![mapper_module_step()] + self.volume_steps(ctx, facts)
    }

    /// Formatting once the device mapper is there.
    pub open spec fn volume_steps(self, ctx: DriverContext, facts: DriverFacts) -> Seq<StepView> {
        seq![
            Step {
                action: OsAction::WriteFile {
                    path: facts.key_path@,
                    text: hex_text(facts.entropy@),
                },
                on_failure: OnFailure::Abort,
            },
        ] + encrypted_steps(
            ctx.device@,
            facts.key_path@,
            self.mapper_text(),
            self.label_text(),
            list_or_empty(self.config.additional_mkfs_options),
        ) + seq![
            self.enroll_step(ctx.device@, facts.key_path@),
            Self::drop_password_step(ctx.device@),
        ]
    }

    fn enroll(&self, device: &str, key: &str) -> (r: OsStep)
        ensures
            r@ == self.enroll_step(device@, key@),
    {
        let tpm = concat("--tpm2-device=", self.device_arg().as_str());
        match self.pcrs_arg() {
            Some(pcrs) => {
                let registers = concat("--tpm2-pcrs=", pcrs.as_str());
                let args = [
                    "/usr/bin/env",
                    "systemd-cryptenroll",
                    "--unlock-key-file",
                    key,
                    tpm.as_str(),
                    registers.as_str(),
                    device,
                ];
                assert(texts(args@) =~= seq![
                    "/usr/bin/env"@,
                    "systemd-cryptenroll"@,
                    "--unlock-key-file"@,
                    key@,
                    "--tpm2-device="@ + self.device_text(),
                ].push("--tpm2-pcrs="@ + self.pcrs_text()->0).push(device@));
                run(&args, OnFailure::Abort)
            },
            None => {
                let args = [
                    "/usr/bin/env",
                    "systemd-cryptenroll",
                    "--unlock-key-file",
                    key,
                    tpm.as_str(),
                    device,
                ];
                assert(texts(args@) =~= seq![
                    "/usr/bin/env"@,
                    "systemd-cryptenroll"@,
                    "--unlock-key-file"@,
                    key@,
                    "--tpm2-device="@ + self.device_text(),
                ].push(device@));
                run(&args, OnFailure::Abort)
            },
        }
    }

    fn format_volume(&self, ctx: &DriverContext, facts: &DriverFacts) -> (r: Vec<OsStep>)
        ensures
            step_views(r@) == self.volume_steps(*ctx, *facts),
    {
        let mut steps = no_steps();
        push_step(
            &mut steps,
            Step {
                action: OsAction::WriteFile {
                    path: facts.key_path.clone(),
                    text: encode_hex(facts.entropy.as_slice()),
                },
                on_failure: OnFailure::Abort,
            },
        );
        let options = get_list_or_empty(&self.config.additional_mkfs_options);
        push_steps(
            &mut steps,
            format_encrypted(
                ctx.device.as_str(),
                facts.key_path.as_str(),
                self.mapper_name().as_str(),
                self.label().as_str(),
                &options,
            ),
        );
        push_step(&mut steps, self.enroll(ctx.device.as_str(), facts.key_path.as_str()));
        let device = ctx.device.as_str();
        let args = ["/usr/bin/env", "systemd-cryptenroll", "--wipe-slot=password", device];
        assert(texts(args@)
            =~= seq!["/usr/bin/env"@, "systemd-cryptenroll"@, "--wipe-slot=password"@, device@]);
        push_step(&mut steps, run(&args, OnFailure::Abort));
        assert(step_views(steps@) =~= self.volume_steps(*ctx, *facts));
        steps
    }
}

impl DataPartitionDriver for Luks2Tpm2Driver {
    open spec fn format_plan(&self, ctx: DriverContext, facts: DriverFacts) -> PlanView {
        (self.format_steps(ctx, facts), None)
    }

    open spec fn mount_plan(&self, ctx: DriverContext, facts: DriverFacts) -> PlanView {
        (
            mount_encrypted_steps(
                open_with_token_steps(ctx.device@, self.mapper_text()),
                self.mapper_text(),
                ctx.mount_point@,
                facts,
            ),
            None,
        )
    }

    /// The previous key is destroyed, whatever comes of the format.
    open spec fn erase_plan(&self, ctx: DriverContext) -> PlanView {
        (erase_volume_steps(ctx.device@), None)
    }

    open spec fn reformats(&self) -> bool {
        true
    }

    fn format(&self, ctx: &DriverContext, facts: &DriverFacts) -> (r: Plan<DriverError>) {
        let mut steps = ensure_dm_module();
        push_steps(&mut steps, self.format_volume(ctx, facts));
        Plan { steps, refusal: None }
    }

    fn mount(&self, ctx: &DriverContext, facts: &DriverFacts) -> (r: Plan<DriverError>) {
        let mapper = self.mapper_name();
        let opening = cryptsetup_open_token_only(ctx.device.as_str(), mapper.as_str());
        let steps = mount_encrypted(opening, mapper.as_str(), ctx.mount_point.as_str(), facts);
        Plan { steps, refusal: None }
    }

    fn erase(&self, ctx: &DriverContext) -> (r: Plan<DriverError>) {
        erase_volume(ctx.device.as_str())
    }

    fn formats_after_erase(&self) -> (r: bool) {
        true
    }
}

/// Compatibility wrapper for the legacy `mount-script` field. Bootstrap formats as plain
/// Ext4; the script handles only the per-boot mount.
#[derive(Debug)]
pub struct LegacyMountScriptDriver {
    pub script: String,
    pub plaintext: PlaintextExt4Driver,
}

impl LegacyMountScriptDriver {
    pub fn new(script: String) -> (r: Self)
        ensures
            r.script == script,
            r.plaintext.label@ == "data"@,
            views(r.plaintext.additional_options@) == Seq::<Seq<char>>::empty(),
    {
        LegacyMountScriptDriver { script, plaintext: PlaintextExt4Driver::default() }
    }
}

impl DataPartitionDriver for LegacyMountScriptDriver {
    open spec fn format_plan(&self, ctx: DriverContext, facts: DriverFacts) -> PlanView {
        self.plaintext.format_plan(ctx, facts)
    }

    open spec fn mount_plan(&self, ctx: DriverContext, facts: DriverFacts) -> PlanView {
        (
            seq![
                run_step(seq![self.script@, ctx.mount_point@, ctx.device@], OnFailure::Abort),
            ],
            None,
        )
    }

    open spec fn erase_plan(&self, ctx: DriverContext) -> PlanView {
        self.plaintext.erase_plan(ctx)
    }

    open spec fn reformats(&self) -> bool {
        true
    }

    fn format(&self, ctx: &DriverContext, facts: &DriverFacts) -> (r: Plan<DriverError>) {
        self.plaintext.format(ctx, facts)
    }

    fn mount(&self, ctx: &DriverContext, facts: &DriverFacts) -> (r: Plan<DriverError>) {
        let args = [self.script.as_str(), ctx.mount_point.as_str(), ctx.device.as_str()];
        assert(texts(args@) =~= seq![self.script@, ctx.mount_point@, ctx.device@]);
        let mut steps = no_steps();
        push_step(&mut steps, run(&args, OnFailure::Abort));
        assert(step_views(steps@) =~= self.mount_plan(*ctx, *facts).0);
        Plan { steps, refusal: None }
    }

    fn erase(&self, ctx: &DriverContext) -> (r: Plan<DriverError>) {
        self.plaintext.erase(ctx)
    }

    fn formats_after_erase(&self) -> (r: bool) {
        true
    }
}

/// Driver implemented by external user-supplied scripts.
#[derive(Debug)]
pub struct CustomDriver {
    pub config: CustomDataPartitionDriverConfig,
}

/// Running a script of the user.
pub open spec fn script_step(script: Seq<char>, ctx: DriverContext) -> StepView {
    run_with_step(
        seq![script, ctx.device@, ctx.mount_point@],
        seq![
            "RUGIX_DATA_DEVICE"@,
            ctx.device@,
            "RUGIX_DATA_MOUNT_POINT"@,
            ctx.mount_point@,
        ],
        OnFailure::Abort,
    )
}

impl CustomDriver {
    pub fn new(config: CustomDataPartitionDriverConfig) -> (r: Self)
        ensures
            r.config == config,
    {
        CustomDriver { config }
    }

    fn run_script(&self, script: &str, ctx: &DriverContext) -> (r: Plan<DriverError>)
        ensures
            is_plan(r, (seq![script_step(script@, *ctx)], None)),
    {
        let device = ctx.device.as_str();
        let mount_point = ctx.mount_point.as_str();
        let args = [script, device, mount_point];
        let vars = ["RUGIX_DATA_DEVICE", device, "RUGIX_DATA_MOUNT_POINT", mount_point];
        assert(texts(args@) =~= seq![script@, device@, mount_point@]);
        assert(texts(vars@)
            =~= seq!["RUGIX_DATA_DEVICE"@, device@, "RUGIX_DATA_MOUNT_POINT"@, mount_point@]);
        let mut steps = no_steps();
        push_step(&mut steps, run_with(&args, &vars, OnFailure::Abort));
        assert(step_views(steps@) =~= seq![script_step(script@, *ctx)]);
        Plan { steps, refusal: None }
    }
}

impl DataPartitionDriver for CustomDriver {
    open spec fn format_plan(&self, ctx: DriverContext, facts: DriverFacts) -> PlanView {
        match self.config.format_script {
            Some(script) => (seq![script_step(script@, ctx)], None),
            None => (Seq::empty(), None),
        }
    }

    open spec fn mount_plan(&self, ctx: DriverContext, facts: DriverFacts) -> PlanView {
        (seq![script_step(self.config.mount_script@, ctx)], None)
    }

    /// The script of the user does the whole wipe.
    open spec fn erase_plan(&self, ctx: DriverContext) -> PlanView {
        match self.config.wipe_script {
            Some(script) => (seq![script_step(script@, ctx)], None),
            None => (Seq::empty(), Some(DriverError::NoWipeScript)),
        }
    }

    open spec fn reformats(&self) -> bool {
        false
    }

    fn format(&self, ctx: &DriverContext, facts: &DriverFacts) -> (r: Plan<DriverError>) {
        match &self.config.format_script {
            Some(script) => self.run_script(script.as_str(), ctx),
            None => Plan { steps: no_steps(), refusal: None },
        }
    }

    fn mount(&self, ctx: &DriverContext, facts: &DriverFacts) -> (r: Plan<DriverError>) {
        self.run_script(self.config.mount_script.as_str(), ctx)
    }

    fn erase(&self, ctx: &DriverContext) -> (r: Plan<DriverError>) {
        match &self.config.wipe_script {
            Some(script) => self.run_script(script.as_str(), ctx),
            None => Plan { steps: no_steps(), refusal: Some(DriverError::NoWipeScript) },
        }
    }

    fn formats_after_erase(&self) -> (r: bool) {
        false
    }
}

/// The driver of a data partition.
#[derive(Debug)]
pub enum ResolvedDriver {
    PlaintextExt4(PlaintextExt4Driver),
    Luks2Passphrase(Luks2PassphraseDriver),
    Luks2Tpm2(Luks2Tpm2Driver),
    LegacyMountScript(LegacyMountScriptDriver),
    Custom(CustomDriver),
}

impl DataPartitionDriver for ResolvedDriver {
    open spec fn format_plan(&self, ctx: DriverContext, facts: DriverFacts) -> PlanView {
        match self {
            ResolvedDriver::PlaintextExt4(driver) => driver.format_plan(ctx, facts),
            ResolvedDriver::Luks2Passphrase(driver) => driver.format_plan(ctx, facts),
            ResolvedDriver::Luks2Tpm2(driver) => driver.format_plan(ctx, facts),
            ResolvedDriver::LegacyMountScript(driver) => driver.format_plan(ctx, facts),
            ResolvedDriver::Custom(driver) => driver.format_plan(ctx, facts),
        }
    }

    open spec fn mount_plan(&self, ctx: DriverContext, facts: DriverFacts) -> PlanView {
        match self {
            ResolvedDriver::PlaintextExt4(driver) => driver.mount_plan(ctx, facts),
            ResolvedDriver::Luks2Passphrase(driver) => driver.mount_plan(ctx, facts),
            ResolvedDriver::Luks2Tpm2(driver) => driver.mount_plan(ctx, facts),
            ResolvedDriver::LegacyMountScript(driver) => driver.mount_plan(ctx, facts),
            ResolvedDriver::Custom(driver) => driver.mount_plan(ctx, facts),
        }
    }

    open spec fn erase_plan(&self, ctx: DriverContext) -> PlanView {
        match self {
            ResolvedDriver::PlaintextExt4(driver) => driver.erase_plan(ctx),
            ResolvedDriver::Luks2Passphrase(driver) => driver.erase_plan(ctx),
            ResolvedDriver::Luks2Tpm2(driver) => driver.erase_plan(ctx),
            ResolvedDriver::LegacyMountScript(driver) => driver.erase_plan(ctx),
            ResolvedDriver::Custom(driver) => driver.erase_plan(ctx),
        }
    }

    open spec fn reformats(&self) -> bool {
        match self {
            ResolvedDriver::PlaintextExt4(driver) => driver.reformats(),
            ResolvedDriver::Luks2Passphrase(driver) => driver.reformats(),
            ResolvedDriver::Luks2Tpm2(driver) => driver.reformats(),
            ResolvedDriver::LegacyMountScript(driver) => driver.reformats(),
            ResolvedDriver::Custom(driver) => driver.reformats(),
        }
    }

    fn format(&self, ctx: &DriverContext, facts: &DriverFacts) -> (r: Plan<DriverError>) {
        match self {
            ResolvedDriver::PlaintextExt4(driver) => driver.format(ctx, facts),
            ResolvedDriver::Luks2Passphrase(driver) => driver.format(ctx, facts),
            ResolvedDriver::Luks2Tpm2(driver) => driver.format(ctx, facts),
            ResolvedDriver::LegacyMountScript(driver) => driver.format(ctx, facts),
            ResolvedDriver::Custom(driver) => driver.format(ctx, facts),
        }
    }

    fn mount(&self, ctx: &DriverContext, facts: &DriverFacts) -> (r: Plan<DriverError>) {
        match self {
            ResolvedDriver::PlaintextExt4(driver) => driver.mount(ctx, facts),
            ResolvedDriver::Luks2Passphrase(driver) => driver.mount(ctx, facts),
            ResolvedDriver::Luks2Tpm2(driver) => driver.mount(ctx, facts),
            ResolvedDriver::LegacyMountScript(driver) => driver.mount(ctx, facts),
            ResolvedDriver::Custom(driver) => driver.mount(ctx, facts),
        }
    }

    fn erase(&self, ctx: &DriverContext) -> (r: Plan<DriverError>) {
        match self {
            ResolvedDriver::PlaintextExt4(driver) => driver.erase(ctx),
            ResolvedDriver::Luks2Passphrase(driver) => driver.erase(ctx),
            ResolvedDriver::Luks2Tpm2(driver) => driver.erase(ctx),
            ResolvedDriver::LegacyMountScript(driver) => driver.erase(ctx),
            ResolvedDriver::Custom(driver) => driver.erase(ctx),
        }
    }

    fn formats_after_erase(&self) -> (r: bool) {
        match self {
            ResolvedDriver::PlaintextExt4(driver) => driver.formats_after_erase(),
            ResolvedDriver::Luks2Passphrase(driver) => driver.formats_after_erase(),
            ResolvedDriver::Luks2Tpm2(driver) => driver.formats_after_erase(),
            ResolvedDriver::LegacyMountScript(driver) => driver.formats_after_erase(),
            ResolvedDriver::Custom(driver) => driver.formats_after_erase(),
        }
    }
}

/// Resolve the active driver for a data partition configuration.
///
/// Precedence: explicit `driver` field, then legacy `mount-script`, then the default
/// plaintext Ext4 driver.
pub fn resolve_driver(config: PartitionConfig) -> (r: ResolvedDriver)
    ensures
        match config.driver {
            Some(DataPartitionDriverConfig::PlaintextExt4(settings)) => r matches
                ResolvedDriver::PlaintextExt4(driver) && driver.label@ == text_or(
                settings.label,
                "data"@,
            ) && views(driver.additional_options@) == list_or_empty(settings.additional_options),
            Some(DataPartitionDriverConfig::Luks2Passphrase(settings)) => r
                == ResolvedDriver::Luks2Passphrase(Luks2PassphraseDriver { config: settings }),
            Some(DataPartitionDriverConfig::Luks2Tpm2(settings)) => r == ResolvedDriver::Luks2Tpm2(
                Luks2Tpm2Driver { config: settings },
            ),
            Some(DataPartitionDriverConfig::Custom(settings)) => r == ResolvedDriver::Custom(
                CustomDriver { config: settings },
            ),
            None => match config.mount_script {
                Some(script) => r matches ResolvedDriver::LegacyMountScript(driver)
                    && driver.script == script && driver.plaintext.label@ == "data"@ && views(
                    driver.plaintext.additional_options@,
                ) == Seq::<Seq<char>>::empty(),
                None => r matches ResolvedDriver::PlaintextExt4(driver) && driver.label@ == "data"@
                    && views(driver.additional_options@) == Seq::<Seq<char>>::empty(),
            },
        },
{
    if let Some(driver) = config.driver {
        return match driver {
            DataPartitionDriverConfig::PlaintextExt4(settings) => ResolvedDriver::PlaintextExt4(
                PlaintextExt4Driver::new(settings),
            ),
            DataPartitionDriverConfig::Luks2Passphrase(settings) => ResolvedDriver::Luks2Passphrase(
                Luks2PassphraseDriver::new(settings),
            ),
            DataPartitionDriverConfig::Luks2Tpm2(settings) => ResolvedDriver::Luks2Tpm2(
                Luks2Tpm2Driver::new(settings),
            ),
            DataPartitionDriverConfig::Custom(settings) => ResolvedDriver::Custom(
                CustomDriver::new(settings),
            ),
        };
    }
    if let Some(script) = config.mount_script {
        return ResolvedDriver::LegacyMountScript(LegacyMountScriptDriver::new(script));
    }
    ResolvedDriver::PlaintextExt4(PlaintextExt4Driver::default())
}

/// The plan of a wipe: the erase, and for most drivers the format.
pub open spec fn wipe_plan<D: DataPartitionDriver>(
    driver: D,
    ctx: DriverContext,
    facts: DriverFacts,
) -> PlanView {
    if driver.reformats() {
        (
            driver.erase_plan(ctx).0 + driver.format_plan(ctx, facts).0,
            driver.format_plan(ctx, facts).1,
        )
    } else {
        driver.erase_plan(ctx)
    }
}

/// Wiping with an encrypting driver destroys the keys of the previous contents before
/// anything else is tried, so that they cannot be decrypted any more. Before that, at
/// most the device mapper is loaded.
pub proof fn law_encrypted_wipe_erases_first(
    passphrase: Luks2PassphraseDriver,
    tpm: Luks2Tpm2Driver,
    ctx: DriverContext,
    facts: DriverFacts,
)
    ensures
        wipe_plan(passphrase, ctx, facts).0[0] == mapper_module_step(),
        wipe_plan(passphrase, ctx, facts).0[1] == erase_step(ctx.device@),
        wipe_plan(tpm, ctx, facts).0[0] == mapper_module_step(),
        wipe_plan(tpm, ctx, facts).0[1] == erase_step(ctx.device@),
{
}

/// A partition is wiped by erasing it and then formatting it as a fresh one, unless a script
/// of the user does all of it.
pub proof fn law_wipe_ends_with_the_format(
    driver: ResolvedDriver,
    ctx: DriverContext,
    facts: DriverFacts,
)
    ensures
        !(driver is Custom) ==> wipe_plan(driver, ctx, facts) == (
            driver.erase_plan(ctx).0 + driver.format_plan(ctx, facts).0,
            driver.format_plan(ctx, facts).1,
        ),
        driver is Custom ==> wipe_plan(driver, ctx, facts) == driver.erase_plan(ctx),
{
}

/// A partition that was formatted with a TPM keeps no other way in: the last step drops
/// the throwaway passphrase, and its failure is a failure of the format.
pub proof fn law_tpm_format_drops_the_passphrase(
    tpm: Luks2Tpm2Driver,
    ctx: DriverContext,
    facts: DriverFacts,
)
    ensures
        tpm.format_plan(ctx, facts).0.last() == Luks2Tpm2Driver::drop_password_step(ctx.device@),
        tpm.format_plan(ctx, facts).0.last().on_failure is Abort,
{
}

/// Whether a step runs a command of a program by its arguments: the words after
/// `/usr/bin/env`.
pub open spec fn runs(step: StepView, program: Seq<char>, command: Seq<char>) -> bool {
    step.action matches OsAction::Run { args, .. } && args.len() > 3 && args[1] == program
        && args[2] == command
}

/// The arguments of a step that runs a program.
pub open spec fn arguments(step: StepView) -> Seq<Seq<char>> {
    step.action->Run_args
}

/// The name of the opened volume of an encrypting driver.
pub open spec fn volume_name(driver: ResolvedDriver) -> Option<Seq<char>> {
    let name = match driver {
        ResolvedDriver::Luks2Passphrase(driver) => Some(driver.config.mapper_name),
        ResolvedDriver::Luks2Tpm2(driver) => Some(driver.config.mapper_name),
        _ => None,
    };
    match name {
        Some(Some(name)) => Some(name@),
        Some(None) => Some("rugix-data"@),
        None => None,
    }
}

/// The device that holds the filesystem: the opened volume of an encrypting driver, else the
/// partition.
pub open spec fn filesystem_device(driver: ResolvedDriver, ctx: DriverContext) -> Seq<char> {
    match volume_name(driver) {
        Some(name) => path_join("/dev/mapper"@, name),
        None => ctx.device@,
    }
}

/// Whether a step creates a filesystem on a device.
pub open spec fn creates_filesystem(step: StepView, on: Seq<char>) -> bool {
    step.action matches OsAction::MakeExt4 { device, .. } && device == on
}

/// Whether steps create a filesystem on a device, and no other one.
pub open spec fn create_filesystem(steps: Seq<StepView>, on: Seq<char>) -> bool {
    &&& exists|i: int| 0 <= i < steps.len() && creates_filesystem(#[trigger] steps[i], on)
    &&& forall|i: int|
        0 <= i < steps.len() && (#[trigger] steps[i]).action is MakeExt4 ==> creates_filesystem(
            steps[i],
            on,
        )
}

/// The filesystem that the format creates is the one that is mounted, at the mount point, by
/// the last step; a driver of scripts leaves that to its scripts.
pub proof fn law_formatted_filesystem_is_mounted(
    driver: ResolvedDriver,
    ctx: DriverContext,
    facts: DriverFacts,
)
    requires
        driver is PlaintextExt4 || driver is Luks2Passphrase || driver is Luks2Tpm2,
        driver.format_plan(ctx, facts).1 is None,
    ensures
        ({
            let device = filesystem_device(driver, ctx);
            let (format, _) = driver.format_plan(ctx, facts);
            let (mount, refusal) = driver.mount_plan(ctx, facts);
            let args = arguments(mount.last());
            &&& refusal is None
            &&& create_filesystem(format, device)
            &&& mount.len() > 0 && runs(mount.last(), "mount"@, "-o"@)
            &&& args[args.len() - 2] == device && args.last() == ctx.mount_point@
            &&& mount.last().on_failure is Abort
        }),
{
    let device = filesystem_device(driver, ctx);
    let (format, _) = driver.format_plan(ctx, facts);
    match driver {
        ResolvedDriver::PlaintextExt4(_) => {
            assert(creates_filesystem(format[0], device));
        },
        ResolvedDriver::Luks2Passphrase(_) => {
            assert(creates_filesystem(format[4], device));
        },
        ResolvedDriver::Luks2Tpm2(_) => {
            assert(creates_filesystem(format[5], device));
        },
        _ => {},
    }
}

/// Whether a step opens the volume on the device.
pub open spec fn opens_volume(step: StepView, ctx: DriverContext, name: Seq<char>) -> bool {
    &&& runs(step, "cryptsetup"@, "open"@)
    &&& arguments(step)[arguments(step).len() - 2] == ctx.device@
    &&& arguments(step).last() == name
    &&& step.on_failure is Abort
}

/// An encrypting driver has the volume opened before its filesystem is mounted, unless it is
/// open already. Where a passphrase is to be read, its file is named.
pub proof fn law_volume_is_opened_before_it_is_mounted(
    driver: ResolvedDriver,
    ctx: DriverContext,
    facts: DriverFacts,
    k: int,
)
    requires
        volume_name(driver) is Some,
        driver.mount_plan(ctx, facts).1 is None,
        0 <= k < driver.mount_plan(ctx, facts).0.len(),
    ensures
        ({
            let steps = driver.mount_plan(ctx, facts).0;
            let name = volume_name(driver)->0;
            &&& !facts.mapper_present ==> exists|i: int|
                0 <= i < steps.len() - 1 && opens_volume(#[trigger] steps[i], ctx, name)
            &&& runs(steps[k], "cryptsetup"@, "open"@) ==> !facts.mapper_present && opens_volume(
                steps[k],
                ctx,
                name,
            )
            &&& driver is Luks2Passphrase && runs(steps[k], "cryptsetup"@, "open"@) ==> arguments(
                steps[k],
            ).contains("--key-file"@) && arguments(steps[k]).contains(
                driver->Luks2Passphrase_0.config.passphrase_file@,
            )
            &&& driver is Luks2Tpm2 && runs(steps[k], "cryptsetup"@, "open"@) ==> arguments(
                steps[k],
            ).contains("--token-only"@)
        }),
{
    let steps = driver.mount_plan(ctx, facts).0;
    let name = volume_name(driver)->0;
    reveal_strlit("cryptsetup");
    reveal_strlit("mount");
    reveal_strlit("fsck");
    reveal_strlit("dmsetup");
    assert("cryptsetup"@[0] == 'c');
    assert("mount"@[0] == 'm');
    assert("fsck"@[0] == 'f');
    if !facts.mapper_present {
        assert(opens_volume(steps[1], ctx, name));
        match driver {
            ResolvedDriver::Luks2Passphrase(d) => {
                assert(arguments(steps[1])[6] == "--key-file"@);
                assert(arguments(steps[1])[7] == d.config.passphrase_file@);
            },
            ResolvedDriver::Luks2Tpm2(_) => {
                assert(arguments(steps[1])[3] == "--token-only"@);
            },
            _ => {},
        }
        if k == 2 {
            assert("dmsetup"@[0] == 'd');
        }
    }
}

/// Whether a step is one of a format that must not fail and is about a key file and a device.
pub open spec fn formats_volume(step: StepView, key: Seq<char>, device: Seq<char>) -> bool {
    &&& runs(step, "cryptsetup"@, "luksFormat"@)
    &&& arguments(step).contains("--key-file"@)
    &&& arguments(step)[arguments(step).len() - 2] == key
    &&& arguments(step).last() == device
    &&& step.on_failure is Abort
}

/// An encrypting driver encrypts the partition before there is a filesystem on it, and
/// creates that on the opened volume, which is closed in the end. The key is the passphrase,
/// or a throwaway one that is written first.
pub proof fn law_partition_is_encrypted_before_it_has_a_filesystem(
    driver: ResolvedDriver,
    ctx: DriverContext,
    facts: DriverFacts,
)
    requires
        volume_name(driver) is Some,
        driver.format_plan(ctx, facts).1 is None,
    ensures
        ({
            let steps = driver.format_plan(ctx, facts).0;
            let name = volume_name(driver)->0;
            let key = match driver {
                ResolvedDriver::Luks2Passphrase(d) => d.config.passphrase_file@,
                _ => facts.key_path@,
            };
            let at = if driver is Luks2Tpm2 {
                2int
            } else {
                1
            };
            &&& steps.len() >= at + 5
            &&& formats_volume(steps[at], key, ctx.device@)
            &&& opens_volume(steps[at + 1], ctx, name)
            &&& creates_filesystem(steps[at + 3], path_join("/dev/mapper"@, name))
            &&& runs(steps[at + 4], "cryptsetup"@, "close"@) && arguments(steps[at + 4]).last()
                == name
            &&& steps[at + 3].on_failure is AfterNext
            &&& driver is Luks2Tpm2 ==> steps[at - 1].action == (OsAction::<_, Seq<Seq<char>>>::WriteFile {
                path: key,
                text: hex_text(facts.entropy@),
            })
        }),
{
    let steps = driver.format_plan(ctx, facts).0;
    let at = if driver is Luks2Tpm2 {
        2int
    } else {
        1
    };
    assert(arguments(steps[at])[6] == "--key-file"@);
}

/// A TPM is enrolled by the throwaway key, on the device, before that key is dropped.
pub proof fn law_tpm_is_enrolled_before_the_key_is_dropped(
    tpm: Luks2Tpm2Driver,
    ctx: DriverContext,
    facts: DriverFacts,
)
    ensures
        ({
            let steps = tpm.format_plan(ctx, facts).0;
            let enroll = steps[steps.len() - 2];
            let drop = steps.last();
            &&& runs(enroll, "systemd-cryptenroll"@, "--unlock-key-file"@)
            &&& arguments(enroll)[3] == facts.key_path@
            &&& arguments(enroll).contains("--tpm2-device="@ + text_or(tpm.config.device, "auto"@))
            &&& arguments(enroll).last() == ctx.device@
            &&& enroll.on_failure is Abort
            &&& tpm.pcrs_text() matches Some(pcrs) ==> arguments(enroll).contains(
                "--tpm2-pcrs="@ + pcrs,
            )
            &&& runs(drop, "systemd-cryptenroll"@, "--wipe-slot=password"@)
            &&& arguments(drop).last() == ctx.device@
        }),
{
    let steps = tpm.format_plan(ctx, facts).0;
    let enroll = steps[steps.len() - 2];
    assert(arguments(enroll)[4] == "--tpm2-device="@ + tpm.device_text());
    if tpm.pcrs_text() is Some {
        assert(arguments(enroll)[5] == "--tpm2-pcrs="@ + tpm.pcrs_text()->0);
    }
}

/// The registers that a key is bound to are all named, each by its number, in their order.
pub proof fn law_registers_are_named(numbers: Seq<u32>, n: nat, i: int)
    requires
        0 <= i < n <= numbers.len(),
    ensures
        decimals(numbers, n).len() == n,
        decimals(numbers, n)[i] == decimal(numbers[i] as nat),
    decreases n,
{
    reveal_with_fuel(decimals, 2);
    if i < n - 1 {
        law_registers_are_named(numbers, (n - 1) as nat, i);
    } else if n > 1 {
        law_registers_are_named(numbers, (n - 1) as nat, 0);
    }
}

/// Without its passphrase file nothing is done to a volume that is encrypted by it, except
/// that a wipe destroys its keys; with it neither formatting nor mounting is refused.
pub proof fn law_passphrase_is_needed(
    driver: Luks2PassphraseDriver,
    ctx: DriverContext,
    facts: DriverFacts,
)
    ensures
        driver.format_plan(ctx, facts).1 is None <==> facts.passphrase_present,
        driver.mount_plan(ctx, facts).1 is None <==> facts.passphrase_present,
        !facts.passphrase_present ==> driver.format_plan(ctx, facts) == (
            Seq::<StepView>::empty(),
            Some(DriverError::PassphraseMissing),
        ) && driver.mount_plan(ctx, facts) == (
            Seq::<StepView>::empty(),
            Some(DriverError::PassphraseMissing),
        ),
{
}

/// A wipe of a partition that is not encrypted has its blocks discarded and gives it a fresh
/// filesystem, also where the discard fails.
pub proof fn law_plain_wipe_discards_first(
    driver: PlaintextExt4Driver,
    ctx: DriverContext,
    facts: DriverFacts,
)
    ensures
        ({
            let (steps, refusal) = wipe_plan(driver, ctx, facts);
            &&& refusal is None
            &&& steps.len() == 2
            &&& runs(steps[0], "blkdiscard"@, "--force"@)
            &&& arguments(steps[0]).last() == ctx.device@
            &&& steps[0].on_failure is Ignore
            &&& creates_filesystem(steps[1], ctx.device@)
            &&& steps[1].on_failure is Abort
        }),
{
}

/// Destroying the keys of an encrypted volume must not fail, and is done to the partition.
pub proof fn law_keys_are_destroyed(device: Seq<char>)
    ensures
        runs(erase_step(device), "cryptsetup"@, "erase"@),
        arguments(erase_step(device)).last() == device,
        erase_step(device).on_failure is Abort,
{
}

/// Whether steps are a single one that runs a script on a device and a mount point, which
/// must not fail.
pub open spec fn runs_script(
    steps: Seq<StepView>,
    script: Seq<char>,
    first: Seq<char>,
    second: Seq<char>,
) -> bool {
    &&& steps.len() == 1
    &&& steps[0].on_failure is Abort
    &&& steps[0].action matches OsAction::Run { args, .. } && args == seq![script, first, second]
}

/// A driver of scripts runs the script for what is to be done, and nothing else. Without a
/// script nothing is formatted, and a wipe is refused.
pub proof fn law_scripts_do_what_they_are_for(
    driver: CustomDriver,
    legacy: LegacyMountScriptDriver,
    ctx: DriverContext,
    facts: DriverFacts,
)
    ensures
        ({
            let config = driver.config;
            let format = driver.format_plan(ctx, facts);
            let mount = driver.mount_plan(ctx, facts);
            let wipe = wipe_plan(driver, ctx, facts);
            &&& mount.1 is None && runs_script(
                mount.0,
                config.mount_script@,
                ctx.device@,
                ctx.mount_point@,
            )
            &&& format.1 is None && if config.format_script is Some {
                runs_script(format.0, config.format_script->0@, ctx.device@, ctx.mount_point@)
            } else {
                format.0.len() == 0
            }
            &&& if config.wipe_script is Some {
                wipe.1 is None && runs_script(
                    wipe.0,
                    config.wipe_script->0@,
                    ctx.device@,
                    ctx.mount_point@,
                )
            } else {
                wipe.1 == Some(DriverError::NoWipeScript) && wipe.0.len() == 0
            }
            &&& legacy.mount_plan(ctx, facts).1 is None && runs_script(
                legacy.mount_plan(ctx, facts).0,
                legacy.script@,
                ctx.mount_point@,
                ctx.device@,
            )
            &&& create_filesystem(legacy.format_plan(ctx, facts).0, ctx.device@)
        }),
{
    assert(creates_filesystem(legacy.format_plan(ctx, facts).0[0], ctx.device@));
}

} // verus!
