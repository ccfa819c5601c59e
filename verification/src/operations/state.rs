//! Operations concerning persistent state.

use vstd::prelude::*;
use crate::init::state_setup::{backup_profile, profiles_dir};
use crate::path::{
    is_contained, is_plain_segment, law_contained_is_relative, path_join, segments,
    ValidatedRelativePath,
};
use crate::text::{
    concat, is_digit, is_white, law_pieces_join_back, opt_view, pieces, trim_end, trim_start,
    trimmed,
};

verus! {

/// Reset persistent system state and reboot.
#[derive(Debug)]
pub struct FactoryReset {
    pub backup: bool,
    pub backup_name: Option<String>,
}

/// Whether a text is made of the numbers of a time.
pub open spec fn is_stamp(s: Seq<char>) -> bool {
    s.len() >= 14 && forall|i: int| 0 <= i < s.len() ==> is_digit(#[trigger] s[i]) || s[i] == '-'
}

/// Whether a timestamp can hold a time, which is given in nanoseconds since the Unix epoch.
pub open spec fn is_timestamp(time: int) -> bool {
    -377_705_023_201_000_000_000 <= time <= 253_402_207_200_999_999_999
}

/// `jiff::Timestamp::try_from` on the time of the system clock, in the nanoseconds that
/// `jiff::Timestamp::as_nanosecond` gives: nothing where the clock is out of the range of a
/// timestamp. Which time it is, and whether the clock is in that range, is left open.
#[verifier::external_body]
fn current_time() -> (r: Option<i128>)
    ensures
        r matches Some(time) ==> is_timestamp(time as int),
{
    jiff::Timestamp::try_from(std::time::SystemTime::now()).ok().map(|now| now.as_nanosecond())
}

/// The year, the month, the day, the hour, the minute and the second of a time in UTC.
pub uninterp spec fn stamp_text(time: int) -> Seq<char>;

/// `jiff::Timestamp::strftime` of the timestamp that `jiff::Timestamp::from_nanosecond`
/// makes: nothing where the time is out of the range of a timestamp, else the year, padded
/// with zeros to four digits and signed where it is negative, and the month, the day, the
/// hour, the minute and the second, each padded to two digits. Which numbers belong to a
/// time is named and not described.
#[verifier::external_body]
fn stamp_at(time: i128) -> (r: Option<String>)
    ensures
        r is Some <==> is_timestamp(time as int),
        r matches Some(stamp) ==> stamp@ == stamp_text(time as int) && is_stamp(stamp@),
{
    let at = jiff::Timestamp::from_nanosecond(time).ok()?;
    Some(at.strftime("%Y%m%d%H%M%S").to_string())
}

/// The name of a backup that is made at a time.
pub open spec fn dated_name(stamp: Seq<char>) -> Seq<char> {
    "default."@ + stamp
}

/// Whether a backup that is made at a time is given a name.
pub open spec fn is_named_at(name: Seq<char>, time: int) -> bool {
    is_timestamp(time) && is_stamp(stamp_text(time)) && name == dated_name(stamp_text(time))
}

/// The name of a backup that is made at a time, in nanoseconds since the Unix epoch, and is
/// not given one; nothing where the time is out of range.
pub fn backup_name_at(time: i128) -> (r: Option<String>)
    ensures
        match r {
            Some(name) => is_named_at(name@, time as int),
            None => !is_timestamp(time as int),
        },
{
    match stamp_at(time) {
        Some(stamp) => Some(concat("default.", stamp.as_str())),
        None => None,
    }
}

/// The name of a backup that is made now and is not given one, or nothing where the clock is
/// out of range.
pub fn default_backup_name() -> (r: Option<String>)
    ensures
        r matches Some(name) ==> exists|time: int| is_named_at(name@, time),
{
    match current_time() {
        Some(time) => {
            let name = backup_name_at(time);
            assert(is_named_at(name->0@, time as int));
            name
        },
        None => None,
    }
}

/// Why a reset is refused.
#[derive(Debug, Clone, Copy, PartialEq, Eq, Structural)]
pub enum ResetError {
    /// Invalid state backup name.
    InvalidBackupName,
    /// State backup name must contain exactly one path component.
    SeveralComponents,
    /// The clock does not tell the time that a backup is named after.
    ClockOutOfRange,
    /// The last action failed.
    ActionFailed,
}

/// Whether a backup can have a name: it names an entry of the directory of state profiles.
pub open spec fn is_backup_name(name: Seq<char>) -> bool {
    is_contained(name) && segments(name).len() == 1
}

/// Why a name is refused.
pub open spec fn backup_name_error(name: Seq<char>) -> Option<ResetError> {
    if !is_contained(name) {
        Some(ResetError::InvalidBackupName)
    } else if segments(name).len() != 1 {
        Some(ResetError::SeveralComponents)
    } else {
        None
    }
}

/// Checks the name of a backup.
pub fn validate_backup_name(name: &str) -> (r: Result<(), ResetError>)
    ensures
        match r {
            Ok(_) => is_backup_name(name@),
            Err(e) => backup_name_error(name@) == Some(e),
        },
{
    match ValidatedRelativePath::new(name) {
        Some(path) => if path.is_single_component() {
            Ok(())
        } else {
            Err(ResetError::SeveralComponents)
        },
        None => Err(ResetError::InvalidBackupName),
    }
}

proof fn lemma_single_piece(s: Seq<char>, separator: char)
    requires
        forall|i: int| 0 <= i < s.len() ==> s[i] != separator,
    ensures
        pieces(s, separator) == seq![s],
    decreases s.len(),
{
    if s.len() == 0 {
        assert(s =~= Seq::empty());
    } else {
        lemma_single_piece(s.drop_last(), separator);
        let before = pieces(s.drop_last(), separator);
        assert(before.last().push(s.last()) =~= s);
        assert(before.drop_last().push(before.last().push(s.last())) =~= seq![s]);
    }
}

proof fn lemma_trim_end_keeps(s: Seq<char>, i: int)
    requires
        0 <= i < s.len(),
        !is_white(s[i]),
    ensures
        trim_end(s).len() > 0,
    decreases s.len(),
{
    if is_white(s.last()) {
        assert(s.drop_last()[i] == s[i]);
        lemma_trim_end_keeps(s.drop_last(), i);
    }
}

/// The name that a backup is given by default is one that a backup can have, and it is not
/// blank.
pub proof fn law_default_backup_name_is_accepted(stamp: Seq<char>)
    requires
        is_stamp(stamp),
    ensures
        is_backup_name(dated_name(stamp)),
        trimmed(dated_name(stamp)).len() > 0,
{
    reveal_strlit("default.");
    let name = dated_name(stamp);
    assert forall|i: int| 0 <= i < name.len() implies name[i] != '/' by {
        if i >= 8 {
            assert(name[i] == stamp[i - 8]);
        }
    }
    lemma_single_piece(name, '/');
    assert(segments(name)[0] == name);
    assert(is_plain_segment(name));
    assert(name[0] == 'd');
    assert(trim_start(name) == name);
    lemma_trim_end_keeps(name, 0);
}

/// A backup that is asked for is made: the name that is written on a reset is where the
/// state is moved to on the next boot, below the directory of state profiles.
pub proof fn law_requested_backup_is_made(name: Seq<char>)
    requires
        is_backup_name(name),
        trimmed(name).len() > 0,
    ensures
        backup_profile(Some(name)) == Some(profiles_dir() + name),
{
    law_contained_is_relative(name);
    reveal_strlit("/run/rugix/mounts/data/state/");
    assert(path_join(profiles_dir(), name) == profiles_dir() + name);
}

/// What a reset wants done next.
#[derive(Debug)]
pub enum ResetAction {
    /// Load the `state-reset` hooks.
    LoadHooks,
    /// Run the `prepare` hooks.
    RunPrepare,
    /// Create the directory of state flags.
    CreateFlagDirectory,
    /// Set the `reset-state` flag, which holds the name of a backup.
    SetFlag { backup_name: Option<String> },
    /// Reboot.
    Reboot,
    /// The reset is on its way.
    Done,
    /// The reset is refused.
    Fail(ResetError),
}

/// Progress of a reset.
#[derive(Debug, Clone, Copy, PartialEq, Eq, Structural)]
pub enum ResetPhase {
    LoadingHooks,
    Preparing,
    CreatingDirectory,
    SettingFlag,
    Rebooting,
    Finished,
}

/// A reset. The flag is set only once the hooks have succeeded, and the system is not
/// rebooted before it is set.
#[derive(Debug)]
pub struct Reset {
    pub phase: ResetPhase,
    pub request: FactoryReset,
}

/// Whether the flag is the one that a reset asks for.
pub open spec fn is_reset_flag(request: FactoryReset, flag: Option<Seq<char>>) -> bool {
    if !request.backup {
        flag is None
    } else {
        match request.backup_name {
            Some(name) => flag == Some(name@),
            None => flag is Some && exists|time: int| is_named_at(flag->0, time),
        }
    }
}

impl FactoryReset {
    /// Whether a name is given but no backup is asked for; the name is ignored.
    pub fn ignores_backup_name(&self) -> (r: bool)
        ensures
            r == (self.backup_name is Some && !self.backup),
    {
        self.backup_name.is_some() && !self.backup
    }

    /// The value of the `reset-state` flag, or why there is none.
    pub fn flag(&self) -> (r: Result<Option<String>, ResetError>)
        ensures
            match r {
                Ok(flag) => is_reset_flag(*self, opt_view(flag)) && (flag matches Some(name)
                    ==> is_backup_name(name@)),
                Err(e) => self.backup && match self.backup_name {
                    Some(name) => backup_name_error(name@) == Some(e),
                    None => e == ResetError::ClockOutOfRange,
                },
            },
            !self.backup ==> r is Ok,
            self.backup && self.backup_name is Some && is_backup_name(self.backup_name->0@)
                ==> r is Ok,
    {
        if !self.backup {
            return Ok(None);
        }
        match &self.backup_name {
            Some(name) => match validate_backup_name(name.as_str()) {
                Ok(_) => Ok(Some(name.as_str().to_owned())),
                Err(e) => Err(e),
            },
            None => match default_backup_name() {
                Some(name) => {
                    proof {
                        let time = choose|time: int| is_named_at(name@, time);
                        law_default_backup_name_is_accepted(stamp_text(time));
                        assert(is_named_at(opt_view(Some(name))->0, time));
                    }
                    Ok(Some(name))
                },
                None => Err(ResetError::ClockOutOfRange),
            },
        }
    }

    /// Begins a reset.
    pub fn factory_reset(self) -> (r: (Reset, ResetAction))
        ensures
            r.0.phase == ResetPhase::LoadingHooks,
            r.0.request == self,
            r.1 is LoadHooks,
    {
        (Reset { phase: ResetPhase::LoadingHooks, request: self }, ResetAction::LoadHooks)
    }
}

impl Reset {
    /// Whether a step is one that may follow the last action, which succeeded or not.
    pub open spec fn may_follow(self, ok: bool, phase: ResetPhase, action: ResetAction) -> bool {
        if !ok {
            phase == ResetPhase::Finished && action == ResetAction::Fail(ResetError::ActionFailed)
        } else {
            match self.phase {
                ResetPhase::LoadingHooks => phase == ResetPhase::Preparing && action is RunPrepare,
                ResetPhase::Preparing => phase == ResetPhase::CreatingDirectory
                    && action is CreateFlagDirectory,
                ResetPhase::CreatingDirectory => match action {
                    ResetAction::SetFlag { backup_name } => phase == ResetPhase::SettingFlag
                        && is_reset_flag(self.request, opt_view(backup_name)) && (
                    backup_name matches Some(name) ==> is_backup_name(name@)),
                    ResetAction::Fail(e) => phase == ResetPhase::Finished && self.request.backup
                        && match self.request.backup_name {
                        Some(name) => backup_name_error(name@) == Some(e),
                        None => e == ResetError::ClockOutOfRange,
                    },
                    _ => false,
                },
                ResetPhase::SettingFlag => phase == ResetPhase::Rebooting && action is Reboot,
                ResetPhase::Rebooting => phase == ResetPhase::Finished && action is Done,
                ResetPhase::Finished => phase == ResetPhase::Finished && action is Done,
            }
        }
    }

    /// Takes whether the last action succeeded, and names the next one.
    pub fn next(&mut self, ok: bool) -> (action: ResetAction)
        ensures
            old(self).may_follow(ok, final(self).phase, action),
            final(self).request == old(self).request,
            action is Reboot ==> old(self).phase == ResetPhase::SettingFlag && ok,
    {
        let (phase, action) = if !ok {
            (ResetPhase::Finished, ResetAction::Fail(ResetError::ActionFailed))
        } else {
            match self.phase {
                ResetPhase::LoadingHooks => (ResetPhase::Preparing, ResetAction::RunPrepare),
                ResetPhase::Preparing => (
                    ResetPhase::CreatingDirectory,
                    ResetAction::CreateFlagDirectory,
                ),
                ResetPhase::CreatingDirectory => match self.request.flag() {
                    Ok(backup_name) => (
                        ResetPhase::SettingFlag,
                        ResetAction::SetFlag { backup_name },
                    ),
                    Err(e) => (ResetPhase::Finished, ResetAction::Fail(e)),
                },
                ResetPhase::SettingFlag => (ResetPhase::Rebooting, ResetAction::Reboot),
                ResetPhase::Rebooting => (ResetPhase::Finished, ResetAction::Done),
                ResetPhase::Finished => (ResetPhase::Finished, ResetAction::Done),
            }
        };
        self.phase = phase;
        action
    }
}

proof fn lemma_several_pieces(s: Seq<char>, separator: char, i: int)
    requires
        0 <= i < s.len(),
        s[i] == separator,
    ensures
        pieces(s, separator).len() > 1,
    decreases s.len(),
{
    law_pieces_join_back(s.drop_last(), separator);
    if s.last() != separator {
        assert(s.drop_last()[i] == s[i]);
        lemma_several_pieces(s.drop_last(), separator, i);
    }
}

/// A backup is one entry of a directory: its name is not empty, holds no slash, and is
/// neither one dot nor two. Any other name is refused.
pub proof fn law_backup_is_one_entry(name: Seq<char>)
    ensures
        is_backup_name(name) <==> name.len() > 0 && !name.contains('/') && name != seq!['.']
            && name != seq!['.', '.'],
        backup_name_error(name) is None <==> is_backup_name(name),
        backup_name_error(name) matches Some(e) ==> if e == ResetError::SeveralComponents {
            name.contains('/')
        } else {
            e == ResetError::InvalidBackupName
        },
{
    law_pieces_join_back(name, '/');
    if name.contains('/') {
        let i = choose|i: int| 0 <= i < name.len() && name[i] == '/';
        lemma_several_pieces(name, '/', i);
    } else {
        assert forall|i: int| 0 <= i < name.len() implies name[i] != '/' by {
            assert(name.contains(name[i]));
        }
        lemma_single_piece(name, '/');
        assert(segments(name)[0] == name);
    }
}

} // verus!
