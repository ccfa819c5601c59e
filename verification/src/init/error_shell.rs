//! Optional init error shell controlled by the kernel cmdline.
//!
//! After a failed initialization, `rugix.init.shell_on_error[=<seconds>]` on the kernel
//! cmdline decides whether a debug shell is offered on the console. Without it, a notice
//! explains how to enable the shell on a future boot.

use vstd::prelude::*;
use crate::text::{
    concat, decimal, has_prefix, parse_u64, parsed, same, split_whitespace, strip_prefix,
    to_decimal, views, words,
};
use crate::time::Duration;

verus! {

/// How long to wait for a key unless told otherwise.
pub const DEFAULT_SHELL_ON_ERROR_TIMEOUT_SECS: u64 = 30;

/// The timeout that a value of the parameter stands for, in seconds.
pub open spec fn value_timeout(value: Seq<char>) -> Option<nat> {
    if value == ""@ || value == "1"@ || value == "true"@ || value == "yes"@ || value == "on"@ {
        Some(DEFAULT_SHELL_ON_ERROR_TIMEOUT_SECS as nat)
    } else if value == "0"@ || value == "false"@ || value == "no"@ || value == "off"@ {
        None
    } else {
        parsed(value, u64::MAX as nat)
    }
}

/// The timeout that the parameters from `from` on stand for: the first one that is about
/// the shell decides.
pub open spec fn params_timeout(params: Seq<Seq<char>>, from: nat) -> Option<nat>
    decreases params.len() - from,
{
    if from >= params.len() {
        None
    } else if params[from as int] == "rugix.init.shell_on_error"@ {
        Some(DEFAULT_SHELL_ON_ERROR_TIMEOUT_SECS as nat)
    } else if has_prefix(params[from as int], "rugix.init.shell_on_error="@) {
        value_timeout(params[from as int].skip("rugix.init.shell_on_error="@.len() as int))
    } else {
        params_timeout(params, from + 1)
    }
}

/// The timeout of the error shell, in seconds, or nothing where it is not enabled.
pub open spec fn shell_timeout(cmdline: Seq<char>) -> Option<nat> {
    params_timeout(words(cmdline), 0)
}

fn parse_value(value: &str) -> (r: Option<Duration>)
    ensures
        match r {
            Some(timeout) => value_timeout(value@) == Some(timeout.secs as nat) && timeout.nanos
                == 0,
            None => value_timeout(value@) is None,
        },
{
    if same(value, "") || same(value, "1") || same(value, "true") || same(value, "yes") || same(
        value,
        "on",
    ) {
        return Some(Duration::from_secs(DEFAULT_SHELL_ON_ERROR_TIMEOUT_SECS));
    }
    if same(value, "0") || same(value, "false") || same(value, "no") || same(value, "off") {
        return None;
    }
    match parse_u64(value) {
        Some(timeout) => Some(Duration::from_secs(timeout)),
        None => None,
    }
}

/// Parses the init error shell timeout from the kernel cmdline.
///
/// This is intentionally opt-in: without an enabling kernel cmdline option, no root shell
/// is exposed to someone with console access.
pub fn parse_shell_on_error_timeout(cmdline: &str) -> (r: Option<Duration>)
    ensures
        match r {
            Some(timeout) => shell_timeout(cmdline@) == Some(timeout.secs as nat) && timeout.nanos
                == 0,
            None => shell_timeout(cmdline@) is None,
        },
{
    let params = split_whitespace(cmdline);
    let ghost texts = words(cmdline@);
    let mut i: usize = 0;
    while i < params.len()
        invariant
            i <= params@.len(),
            views(params@) == texts,
            texts == words(cmdline@),
            params_timeout(texts, 0) == params_timeout(texts, i as nat),
        decreases params@.len() - i,
    {
        assert(params@[i as int]@ == texts[i as int]);
        if same(params[i].as_str(), "rugix.init.shell_on_error") {
            return Some(Duration::from_secs(DEFAULT_SHELL_ON_ERROR_TIMEOUT_SECS));
        }
        if let Some(value) = strip_prefix(params[i].as_str(), "rugix.init.shell_on_error=") {
            return parse_value(value.as_str());
        }
        i = i + 1;
    }
    None
}

/// What to do on the console after a failed initialization.
#[derive(Debug)]
pub enum Prompt {
    /// Write a message that the shell is disabled.
    Disabled { message: String },
    /// Write a message and wait for a key.
    Wait { message: String, timeout: Duration },
}

/// The message where the shell is not enabled.
pub open spec fn disabled_message() -> Seq<char> {
    "\nRugix initialization failed. The init error shell is disabled. For security, Rugix only opens one when `rugix.init.shell_on_error` or `rugix.init.shell_on_error=<seconds>` is set on the kernel cmdline.\n"@
}

/// The message that asks for a key.
pub open spec fn prompt_message(secs: nat) -> Seq<char> {
    "\nRugix initialization failed. Press any key within "@ + decimal(secs)
        + " seconds to open a debug shell.\n"@
}

/// Prompts for a debug shell after a failed initialization when enabled.
///
/// The shell is only offered if the kernel cmdline could be read and enables it. Without
/// that opt-in, a message explains how to enable it.
pub fn prompt_on_init_error(cmdline: Option<&str>) -> (r: Prompt)
    ensures
        r is Wait <==> (cmdline is Some && shell_timeout(cmdline->0@) is Some),
        match r {
            Prompt::Disabled { message } => message@ == disabled_message(),
            Prompt::Wait { message, timeout } => {
                &&& shell_timeout(cmdline->0@) == Some(timeout.secs as nat)
                &&& timeout.nanos == 0
                &&& message@ == prompt_message(timeout.secs as nat)
            },
        },
{
    let timeout = match cmdline {
        Some(cmdline) => parse_shell_on_error_timeout(cmdline),
        None => None,
    };
    match timeout {
        Some(timeout) => {
            let start = concat(
                "\nRugix initialization failed. Press any key within ",
                to_decimal(timeout.as_secs()).as_str(),
            );
            let message = concat(start.as_str(), " seconds to open a debug shell.\n");
            Prompt::Wait { message, timeout }
        },
        None => Prompt::Disabled {
            message: "\nRugix initialization failed. The init error shell is disabled. For security, Rugix only opens one when `rugix.init.shell_on_error` or `rugix.init.shell_on_error=<seconds>` is set on the kernel cmdline.\n".to_owned(),
        },
    }
}

/// What came of waiting for the console.
#[derive(Debug, Clone, Copy, PartialEq, Eq, Structural)]
pub enum ConsoleWait {
    /// Nothing happened in time.
    TimedOut,
    /// Something happened; whether there is input.
    Ready { input: bool },
}

/// What came of reading from the console.
#[derive(Debug, Clone, Copy, PartialEq, Eq, Structural)]
pub enum ConsoleRead {
    End,
    Key,
    Interrupted,
    WouldBlock,
    Failed,
}

/// What to do next on the console.
#[derive(Debug, Clone, Copy, PartialEq, Eq, Structural)]
pub enum KeyDecision {
    /// Read from the console.
    Read,
    /// A key was pressed: start the shell.
    StartShell,
    /// No key was pressed: go on.
    GoOn,
    /// The console cannot be read.
    Fail,
}

/// Decides what follows the wait.
pub fn after_wait(wait: ConsoleWait) -> (r: KeyDecision)
    ensures
        r == if wait == (ConsoleWait::Ready { input: true }) {
            KeyDecision::Read
        } else {
            KeyDecision::GoOn
        },
{
    match wait {
        ConsoleWait::TimedOut => KeyDecision::GoOn,
        ConsoleWait::Ready { input } => if input {
            KeyDecision::Read
        } else {
            KeyDecision::GoOn
        },
    }
}

/// Decides what follows an attempt to read a key. The shell starts only where a key was
/// read.
pub fn after_read(read: ConsoleRead) -> (r: KeyDecision)
    ensures
        r == match read {
            ConsoleRead::End => KeyDecision::GoOn,
            ConsoleRead::Key => KeyDecision::StartShell,
            ConsoleRead::Interrupted => KeyDecision::Read,
            ConsoleRead::WouldBlock => KeyDecision::GoOn,
            ConsoleRead::Failed => KeyDecision::Fail,
        },
{
    match read {
        ConsoleRead::End => KeyDecision::GoOn,
        ConsoleRead::Key => KeyDecision::StartShell,
        ConsoleRead::Interrupted => KeyDecision::Read,
        ConsoleRead::WouldBlock => KeyDecision::GoOn,
        ConsoleRead::Failed => KeyDecision::Fail,
    }
}

/// Without a parameter about it on the kernel cmdline, the shell is never offered.
pub proof fn law_shell_is_opt_in(cmdline: Seq<char>)
    requires
        forall|i: int|
            0 <= i < words(cmdline).len() ==> (#[trigger] words(cmdline)[i])
                != "rugix.init.shell_on_error"@ && !has_prefix(
                words(cmdline)[i],
                "rugix.init.shell_on_error="@,
            ),
    ensures
        shell_timeout(cmdline) is None,
{
    lemma_opt_in(words(cmdline), 0);
}

/// Whether a parameter is about the shell.
pub open spec fn is_about_shell(param: Seq<char>) -> bool {
    param == "rugix.init.shell_on_error"@ || has_prefix(param, "rugix.init.shell_on_error="@)
}

proof fn lemma_first_decides(params: Seq<Seq<char>>, i: int, from: nat)
    requires
        from <= i < params.len(),
        is_about_shell(params[i]),
        forall|k: int| from <= k < i ==> !is_about_shell(#[trigger] params[k]),
    ensures
        params_timeout(params, from) == params_timeout(params, i as nat),
    decreases i - from,
{
    if from < i {
        assert(!is_about_shell(params[from as int]));
        lemma_first_decides(params, i, from + 1);
    }
}

/// The first parameter that is about the shell decides. It enables the shell for as long as
/// its value tells, or for the default time where it only says that it is enabled; a value
/// that says otherwise, or nothing that is known, does not enable it.
pub proof fn law_first_shell_parameter_decides(cmdline: Seq<char>, i: int)
    requires
        0 <= i < words(cmdline).len(),
        is_about_shell(words(cmdline)[i]),
        forall|k: int| 0 <= k < i ==> !is_about_shell(#[trigger] words(cmdline)[k]),
    ensures
        ({
            let param = words(cmdline)[i];
            let value = param.skip("rugix.init.shell_on_error="@.len() as int);
            let timeout = shell_timeout(cmdline);
            let says_on = param == "rugix.init.shell_on_error"@ || value == ""@ || value == "1"@
                || value == "true"@ || value == "yes"@ || value == "on"@;
            let says_off = value == "0"@ || value == "false"@ || value == "no"@ || value == "off"@;
            &&& says_on ==> timeout == Some(DEFAULT_SHELL_ON_ERROR_TIMEOUT_SECS as nat)
            &&& !says_on && says_off ==> timeout is None
            &&& !says_on && !says_off ==> timeout == parsed(value, u64::MAX as nat)
        }),
{
    let params = words(cmdline);
    lemma_first_decides(params, i, 0);
    reveal_strlit("rugix.init.shell_on_error");
    reveal_strlit("rugix.init.shell_on_error=");
    reveal_strlit("");
    reveal_strlit("0");
    reveal_strlit("1");
    reveal_strlit("true");
    reveal_strlit("yes");
    reveal_strlit("on");
    reveal_strlit("false");
    reveal_strlit("no");
    reveal_strlit("off");
}

proof fn lemma_opt_in(params: Seq<Seq<char>>, from: nat)
    requires
        forall|i: int|
            0 <= i < params.len() ==> (#[trigger] params[i]) != "rugix.init.shell_on_error"@
                && !has_prefix(params[i], "rugix.init.shell_on_error="@),
    ensures
        params_timeout(params, from) is None,
    decreases params.len() - from,
{
    if from < params.len() {
        lemma_opt_in(params, from + 1);
    }
}

} // verus!
