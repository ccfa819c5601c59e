//! Stages of a system update that follow one another.

use vstd::prelude::*;

verus! {

/// Why a directory could not be removed.
#[derive(Debug, Clone, Copy, PartialEq, Eq, Structural)]
pub enum RemoveError {
    /// It is not there.
    NotFound,
    /// Any other reason.
    Other,
}

/// Prepares a system update: the stages run in order, and the first one that fails
/// is the last one that runs. No stage can be called before those before it succeeded.
pub fn prepare_system_update<T, E>(
    preflight: impl FnOnce() -> Result<T, E>,
    pre_update_hook: impl FnOnce() -> Result<(), E>,
    overlay_cleanup: impl FnOnce() -> Result<(), E>,
    pre_install: impl FnOnce() -> Result<(), E>,
) -> (r: Result<T, E>)
    requires
        call_requires(preflight, ()),
        forall|v: T| #[trigger]
            call_ensures(preflight, (), Ok::<T, E>(v)) ==> call_requires(pre_update_hook, ()),
        call_ensures(pre_update_hook, (), Ok::<(), E>(())) ==> call_requires(overlay_cleanup, ()),
        call_ensures(overlay_cleanup, (), Ok::<(), E>(())) ==> call_requires(pre_install, ()),
    ensures
        match r {
            Ok(v) => {
                &&& call_ensures(preflight, (), Ok::<T, E>(v))
                &&& call_ensures(pre_update_hook, (), Ok::<(), E>(()))
                &&& call_ensures(overlay_cleanup, (), Ok::<(), E>(()))
                &&& call_ensures(pre_install, (), Ok::<(), E>(()))
            },
            Err(e) => {
                ||| call_ensures(preflight, (), Err::<T, E>(e))
                ||| (exists|v: T| call_ensures(preflight, (), Ok::<T, E>(v))) && {
                    ||| call_ensures(pre_update_hook, (), Err::<(), E>(e))
                    ||| call_ensures(pre_update_hook, (), Ok::<(), E>(())) && {
                        ||| call_ensures(overlay_cleanup, (), Err::<(), E>(e))
                        ||| call_ensures(overlay_cleanup, (), Ok::<(), E>(())) && call_ensures(
                            pre_install,
                            (),
                            Err::<(), E>(e),
                        )
                    }
                }
            },
        },
{
    let value = match preflight() {
        Ok(value) => value,
        Err(e) => return Err(e),
    };
    assert(call_ensures(preflight, (), Ok::<T, E>(value)));
    match pre_update_hook() {
        Ok(unit) => {
            assert(unit == ());
        },
        Err(e) => return Err(e),
    }
    match overlay_cleanup() {
        Ok(unit) => {
            assert(unit == ());
        },
        Err(e) => return Err(e),
    }
    match pre_install() {
        Ok(unit) => {
            assert(unit == ());
            Ok(value)
        },
        Err(e) => Err(e),
    }
}

/// Finalizes a payload, and records what came of it only where that succeeded.
pub fn finalize_payload_and_record<T, E>(
    finalize: impl FnOnce() -> Result<T, E>,
    record: impl FnOnce(T) -> Result<(), E>,
) -> (r: Result<(), E>)
    requires
        call_requires(finalize, ()),
        forall|value: T| #[trigger] call_ensures(finalize, (), Ok::<T, E>(value)) ==> call_requires(
            record,
            (value,),
        ),
    ensures
        (exists|value: T| #[trigger] call_ensures(finalize, (), Ok::<T, E>(value)) && call_ensures(
            record,
            (value,),
            r,
        )) || (r matches Err(e) && call_ensures(finalize, (), Err::<T, E>(e))),
{
    match finalize() {
        Ok(value) => {
            let ghost finalized = value;
            let r = record(value);
            assert(call_ensures(finalize, (), Ok::<T, E>(finalized)) && call_ensures(
                record,
                (finalized,),
                r,
            ));
            r
        },
        Err(e) => Err(e),
    }
}

/// Clears the overlay of a boot group. One that is not there is clear already.
pub fn clear_target_overlay_with(
    path: &str,
    remove: impl FnOnce(&str) -> Result<(), RemoveError>,
) -> (r: Result<(), RemoveError>)
    requires
        call_requires(remove, (path,)),
    ensures
        r is Ok ==> call_ensures(remove, (path,), Ok::<(), RemoveError>(())) || call_ensures(
            remove,
            (path,),
            Err::<(), RemoveError>(RemoveError::NotFound),
        ),
        r matches Err(e) ==> e == RemoveError::Other && call_ensures(
            remove,
            (path,),
            Err::<(), RemoveError>(RemoveError::Other),
        ),
{
    match remove(path) {
        Ok(unit) => {
            assert(unit == ());
            Ok(())
        },
        Err(RemoveError::NotFound) => Ok(()),
        Err(RemoveError::Other) => Err(RemoveError::Other),
    }
}

} // verus!
