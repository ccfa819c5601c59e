//! Boot flow that is implemented by an executable of the user.

use vstd::prelude::*;
use crate::script::{owned, texts};
use crate::system::boot_groups::{group_named, BootGroups};
use crate::text::{chars_of, trim, trimmed, views};

verus! {

/// Output type for operations that output a boot group.
#[derive(Debug)]
pub struct OutputGroup {
    pub group: String,
}

/// Output type for operations that do not provide any output.
#[derive(Debug, Clone, Copy)]
pub struct OutputNone {}

/// What a boot flow can do beyond booting.
#[derive(Debug, Clone, Copy, PartialEq, Eq, Structural)]
pub struct BootFlowCapabilities {
    /// Whether it recovers from failures in userspace.
    pub userspace_failure_recovery: Option<bool>,
}

impl Default for BootFlowCapabilities {
    fn default() -> (r: Self)
        ensures
            r == (BootFlowCapabilities { userspace_failure_recovery: None }),
    {
        BootFlowCapabilities { userspace_failure_recovery: None }
    }
}

/// What the executable replied.
#[derive(Debug)]
pub enum Reply<T> {
    /// It failed.
    Failed,
    /// It wrote a text, which has the expected form or not.
    Output { text: String, value: Option<T> },
}

impl<T> Reply<T> {
    /// Whether nothing was written: the executable does not implement the operation.
    pub open spec fn blank(self) -> bool {
        self matches Reply::Output { text, .. } && trimmed(text@).len() == 0
    }

    fn is_blank(&self) -> (r: bool)
        ensures
            r == self.blank(),
    {
        match self {
            Reply::Failed => false,
            Reply::Output { text, .. } => chars_of(trim(text.as_str()).as_str()).len() == 0,
        }
    }
}

/// Why an operation failed.
#[derive(Debug, Clone, Copy, PartialEq, Eq, Structural)]
pub enum CustomFlowError {
    /// Error running the operation.
    Failed,
    /// Invalid output.
    InvalidOutput,
    /// Unknown boot group.
    UnknownGroup,
}

/// An operation on a boot group that gives no output.
#[derive(Debug, Clone, Copy, PartialEq, Eq, Structural)]
pub enum GroupOperation {
    SetTryNext,
    Commit,
    PreInstall,
    PostInstall,
    MarkGood,
    MarkBad,
}

impl GroupOperation {
    pub open spec fn text(self) -> Seq<char> {
        match self {
            GroupOperation::SetTryNext => "set_try_next"@,
            GroupOperation::Commit => "commit"@,
            GroupOperation::PreInstall => "pre_install"@,
            GroupOperation::PostInstall => "post_install"@,
            GroupOperation::MarkGood => "mark_good"@,
            GroupOperation::MarkBad => "mark_bad"@,
        }
    }

    fn name(self) -> (r: &'static str)
        ensures
            r@ == self.text(),
    {
        match self {
            GroupOperation::SetTryNext => "set_try_next",
            GroupOperation::Commit => "commit",
            GroupOperation::PreInstall => "pre_install",
            GroupOperation::PostInstall => "post_install",
            GroupOperation::MarkGood => "mark_good",
            GroupOperation::MarkBad => "mark_bad",
        }
    }
}

/// An operation that is not about a boot group.
#[derive(Debug, Clone, Copy, PartialEq, Eq, Structural)]
pub enum Query {
    Capabilities,
    GetDefault,
    GetActive,
    Reboot,
}

impl Query {
    pub open spec fn text(self) -> Seq<char> {
        match self {
            Query::Capabilities => "capabilities"@,
            Query::GetDefault => "get_default"@,
            Query::GetActive => "get_active"@,
            Query::Reboot => "reboot"@,
        }
    }

    fn name(self) -> (r: &'static str)
        ensures
            r@ == self.text(),
    {
        match self {
            Query::Capabilities => "capabilities",
            Query::GetDefault => "get_default",
            Query::GetActive => "get_active",
            Query::Reboot => "reboot",
        }
    }
}

/// Custom boot flow implementation.
#[derive(Debug)]
pub struct CustomBootFlow {
    /// Path to the boot flow executable.
    pub controller: String,
}

/// What to do about a reboot.
#[derive(Debug, Clone, Copy, PartialEq, Eq, Structural)]
pub enum RebootDecision {
    /// The executable reboots.
    Handled,
    /// The executable does not implement it: reboot as usual.
    Usual,
}

impl CustomBootFlow {
    /// The name of the boot flow.
    pub fn name(&self) -> (r: &'static str)
        ensures
            r@ == "custom"@,
    {
        "custom"
    }

    /// The command of an operation on a group.
    pub fn group_command(&self, operation: GroupOperation, group: &str) -> (r: Vec<String>)
        ensures
            views(r@) == seq![self.controller@, operation.text(), group@],
    {
        let args = [self.controller.as_str(), operation.name(), group];
        assert(texts(args@) =~= seq![self.controller@, operation.text(), group@]);
        owned(&args)
    }

    /// The command of another operation.
    pub fn query_command(&self, query: Query) -> (r: Vec<String>)
        ensures
            views(r@) == seq![self.controller@, query.text()],
    {
        let args = [self.controller.as_str(), query.name()];
        assert(texts(args@) =~= seq![self.controller@, query.text()]);
        owned(&args)
    }

    /// What the boot flow can do. Where the executable does not say so, it can do nothing.
    pub fn capabilities(&self, reply: &Reply<BootFlowCapabilities>) -> (r: BootFlowCapabilities)
        ensures
            r == match *reply {
                Reply::Failed => BootFlowCapabilities { userspace_failure_recovery: None },
                Reply::Output { value, .. } => if reply.blank() || value is None {
                    BootFlowCapabilities { userspace_failure_recovery: None }
                } else {
                    value->0
                },
            },
    {
        if reply.is_blank() {
            return BootFlowCapabilities::default();
        }
        match reply {
            Reply::Failed => BootFlowCapabilities::default(),
            Reply::Output { value, .. } => match value {
                Some(capabilities) => *capabilities,
                None => BootFlowCapabilities::default(),
            },
        }
    }

    /// Whether an operation that gives no output succeeded.
    pub fn completed(&self, reply: &Reply<OutputNone>) -> (r: Result<(), CustomFlowError>)
        ensures
            r == match *reply {
                Reply::Failed => Err(CustomFlowError::Failed),
                Reply::Output { value, .. } => if value is Some {
                    Ok(())
                } else {
                    Err(CustomFlowError::InvalidOutput)
                },
            },
    {
        match reply {
            Reply::Failed => Err(CustomFlowError::Failed),
            Reply::Output { value, .. } => if value.is_some() {
                Ok(())
            } else {
                Err(CustomFlowError::InvalidOutput)
            },
        }
    }

    /// The group that is booted by default.
    pub fn get_default(&self, groups: &BootGroups, reply: &Reply<OutputGroup>) -> (r: Result<
        usize,
        CustomFlowError,
    >)
        ensures
            r == match *reply {
                Reply::Failed => Err(CustomFlowError::Failed),
                Reply::Output { value: None, .. } => Err(CustomFlowError::InvalidOutput),
                Reply::Output { value: Some(output), .. } => match group_named(
                    groups.groups@,
                    output.group@,
                    0,
                ) {
                    Some(group) => Ok(group),
                    None => Err(CustomFlowError::UnknownGroup),
                },
            },
    {
        match reply {
            Reply::Failed => Err(CustomFlowError::Failed),
            Reply::Output { value, .. } => match value {
                None => Err(CustomFlowError::InvalidOutput),
                Some(output) => match groups.find_by_name(output.group.as_str()) {
                    Some(group) => Ok(group),
                    None => Err(CustomFlowError::UnknownGroup),
                },
            },
        }
    }

    /// The group that was booted, where the executable says so. It need not implement
    /// this: nothing, or anything that is not understood, means that it is not known.
    pub fn get_active(&self, groups: &BootGroups, reply: &Reply<OutputGroup>) -> (r: Option<usize>)
        ensures
            r == match *reply {
                Reply::Output { value: Some(output), .. } => if reply.blank() {
                    None
                } else {
                    group_named(groups.groups@, output.group@, 0)
                },
                _ => None,
            },
            r matches Some(group) ==> group < groups.groups@.len(),
    {
        if reply.is_blank() {
            return None;
        }
        match reply {
            Reply::Failed => None,
            Reply::Output { value, .. } => match value {
                None => None,
                Some(output) => groups.find_by_name(output.group.as_str()),
            },
        }
    }

    /// What to do about a reboot. The executable need not implement it.
    pub fn reboot(&self, reply: &Reply<OutputNone>) -> (r: Result<RebootDecision, CustomFlowError>)
        ensures
            r == match *reply {
                Reply::Failed => Err(CustomFlowError::Failed),
                Reply::Output { value, .. } => if reply.blank() {
                    Ok(RebootDecision::Usual)
                } else if value is Some {
                    Ok(RebootDecision::Handled)
                } else {
                    Err(CustomFlowError::InvalidOutput)
                },
            },
    {
        if reply.is_blank() {
            return Ok(RebootDecision::Usual);
        }
        match self.completed(reply) {
            Ok(_) => Ok(RebootDecision::Handled),
            Err(e) => Err(e),
        }
    }
}

} // verus!
