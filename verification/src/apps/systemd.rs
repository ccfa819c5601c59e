//! Systemd integration for apps.

use vstd::prelude::*;
use crate::script::{owned, texts};
use crate::text::{concat, join, joined, trim, trimmed, views};

verus! {

/// Runtime directory where systemd picks up transient units.
pub fn runtime_units_dir() -> (r: &'static str)
    ensures
        r@ == "/run/systemd/system"@,
{
    "/run/systemd/system"
}

/// Why a call of `systemctl` failed.
#[derive(Debug)]
pub enum SystemctlError<E> {
    /// It could not be run.
    NotRun(E),
    /// It reported a failure.
    Failed { message: String },
}

/// What is said of a failed call.
pub open spec fn failure_message(args: Seq<Seq<char>>) -> Seq<char> {
    "systemctl "@ + joined(args, " "@) + " failed"@
}

/// Whether the outcome is that of a call of `systemctl` with these arguments: a call counts
/// as a success only where it reports one.
pub open spec fn is_call_of<E, F: FnOnce(&Vec<String>) -> Result<bool, E>>(
    execute: F,
    words: Seq<Seq<char>>,
    r: Result<(), SystemctlError<E>>,
) -> bool {
    exists|args: Vec<String>, outcome: Result<bool, E>|
        views(args@) == words && #[trigger] call_ensures(execute, (&args,), outcome) && match (
            outcome,
            r,
        ) {
            (Ok(true), Ok(_)) => true,
            (Ok(false), Err(SystemctlError::Failed { message })) => message@ == failure_message(
                words,
            ),
            (Err(e), Err(SystemctlError::NotRun(found))) => e == found,
            _ => false,
        }
}

/// Runs `systemctl` with the given arguments. `execute` tells whether it succeeded.
pub fn run_with<E, F: FnOnce(&Vec<String>) -> Result<bool, E>>(args: &[&str], execute: F) -> (r:
    Result<(), SystemctlError<E>>)
    requires
        forall|list: Vec<String>| call_requires(execute, (&list,)),
    ensures
        is_call_of(execute, texts(args@), r),
{
    let list = owned(args);
    let outcome = execute(&list);
    let ghost result = outcome;
    match outcome {
        Ok(success) => {
            if success {
                assert(call_ensures(execute, (&list,), result));
                Ok(())
            } else {
                let start = concat("systemctl ", join(&list, " ").as_str());
                let message = concat(start.as_str(), " failed");
                assert(call_ensures(execute, (&list,), result));
                Err(SystemctlError::Failed { message })
            }
        },
        Err(e) => {
            assert(call_ensures(execute, (&list,), result));
            Err(SystemctlError::NotRun(e))
        },
    }
}

/// Run `systemctl daemon-reload`.
pub fn daemon_reload<E, F: FnOnce(&Vec<String>) -> Result<bool, E>>(execute: F) -> (r: Result<
    (),
    SystemctlError<E>,
>)
    requires
        forall|list: Vec<String>| call_requires(execute, (&list,)),
    ensures
        is_call_of(execute, seq!["daemon-reload"@], r),
{
    let args = ["daemon-reload"];
    assert(texts(args@) =~= seq!["daemon-reload"@]);
    run_with(&args, execute)
}

/// Enable a unit with `--runtime`.
pub fn enable_runtime<E, F: FnOnce(&Vec<String>) -> Result<bool, E>>(unit: &str, execute: F) -> (r:
    Result<(), SystemctlError<E>>)
    requires
        forall|list: Vec<String>| call_requires(execute, (&list,)),
    ensures
        is_call_of(execute, seq!["enable"@, "--runtime"@, unit@], r),
{
    let args = ["enable", "--runtime", unit];
    assert(texts(args@) =~= seq!["enable"@, "--runtime"@, unit@]);
    run_with(&args, execute)
}

/// Disable a unit with `--runtime`.
pub fn disable_runtime<E, F: FnOnce(&Vec<String>) -> Result<bool, E>>(unit: &str, execute: F) -> (r:
    Result<(), SystemctlError<E>>)
    requires
        forall|list: Vec<String>| call_requires(execute, (&list,)),
    ensures
        is_call_of(execute, seq!["disable"@, "--runtime"@, unit@], r),
{
    let args = ["disable", "--runtime", unit];
    assert(texts(args@) =~= seq!["disable"@, "--runtime"@, unit@]);
    run_with(&args, execute)
}

/// Start a unit, waiting for it to finish.
pub fn start<E, F: FnOnce(&Vec<String>) -> Result<bool, E>>(unit: &str, execute: F) -> (r: Result<
    (),
    SystemctlError<E>,
>)
    requires
        forall|list: Vec<String>| call_requires(execute, (&list,)),
    ensures
        is_call_of(execute, seq!["start"@, unit@], r),
{
    let args = ["start", unit];
    assert(texts(args@) =~= seq!["start"@, unit@]);
    run_with(&args, execute)
}

/// Queue a unit for start without blocking.
pub fn start_no_block<E, F: FnOnce(&Vec<String>) -> Result<bool, E>>(unit: &str, execute: F) -> (r:
    Result<(), SystemctlError<E>>)
    requires
        forall|list: Vec<String>| call_requires(execute, (&list,)),
    ensures
        is_call_of(execute, seq!["start"@, "--no-block"@, unit@], r),
{
    let args = ["start", "--no-block", unit];
    assert(texts(args@) =~= seq!["start"@, "--no-block"@, unit@]);
    run_with(&args, execute)
}

/// Stop a unit.
pub fn stop<E, F: FnOnce(&Vec<String>) -> Result<bool, E>>(unit: &str, execute: F) -> (r: Result<
    (),
    SystemctlError<E>,
>)
    requires
        forall|list: Vec<String>| call_requires(execute, (&list,)),
    ensures
        is_call_of(execute, seq!["stop"@, unit@], r),
{
    let args = ["stop", unit];
    assert(texts(args@) =~= seq!["stop"@, unit@]);
    run_with(&args, execute)
}

/// The status of a unit (e.g. `"active"`, `"inactive"`) from what `systemctl is-active`
/// writes.
pub fn active_status(output: &str) -> (r: String)
    ensures
        r@ == trimmed(output@),
{
    trim(output)
}

/// The arguments that ask whether a unit is active.
pub fn is_active(unit: &str) -> (r: Vec<String>)
    ensures
        views(r@) == seq!["is-active"@, unit@],
{
    let args = ["is-active", unit];
    assert(texts(args@) =~= seq!["is-active"@, unit@]);
    owned(&args)
}

} // verus!
