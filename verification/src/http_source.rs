//! Bundles that are fetched over HTTP.
//!
//! Where the server supports range requests, only the parts that are read are
//! fetched. A read is a machine: it names one action at a time and takes its
//! outcome.

use vstd::prelude::*;
use vstd::arithmetic::power2::{lemma_pow2_unfold, pow2};
use crate::text::{
    chars_of, concat, decimal, law_decimal_is_parsed, parse_u64, parsed, string_of_range,
    to_decimal, trim, trimmed,
};
use crate::time::Duration;

verus! {

/// Configuration for HTTP retry/reconnect behavior.
#[derive(Debug, Clone, Copy, PartialEq, Eq, Structural)]
pub struct RetryConfig {
    /// Maximum number of consecutive retry attempts before giving up.
    pub max_retries: u32,
    /// Initial backoff duration before the first retry.
    pub initial_backoff: Duration,
    /// Maximum backoff duration (caps the exponential growth).
    pub max_backoff: Duration,
}

impl Default for RetryConfig {
    fn default() -> (r: Self)
        ensures
            r == (RetryConfig {
                max_retries: 5,
                initial_backoff: Duration { secs: 1, nanos: 0 },
                max_backoff: Duration { secs: 30, nanos: 0 },
            }),
            r.wf(),
    {
        RetryConfig {
            max_retries: 5,
            initial_backoff: Duration::from_secs(1),
            max_backoff: Duration::from_secs(30),
        }
    }
}

impl RetryConfig {
    pub open spec fn wf(self) -> bool {
        self.initial_backoff.wf() && self.max_backoff.wf()
    }
}

/// The backoff after some retries, in nanoseconds: it doubles with each retry, up
/// to the maximum.
pub open spec fn backoff_nanos(config: RetryConfig, retries: nat) -> nat {
    let base = config.initial_backoff.total() * pow2(retries);
    if base > config.max_backoff.total() {
        config.max_backoff.total()
    } else {
        base
    }
}

proof fn lemma_doubling_grows(value: nat, i: nat, n: nat)
    requires
        i <= n,
    ensures
        value * pow2(i) <= value * pow2(n),
    decreases n - i,
{
    if i < n {
        lemma_doubling_grows(value, i, (n - 1) as nat);
        lemma_pow2_unfold(n);
        let m = pow2((n - 1) as nat);
        assert(value * (2 * m) == 2 * (value * m)) by (nonlinear_arith);
        assert(value * m >= 0) by (nonlinear_arith)
            requires
                value >= 0,
                m >= 0,
        ;
    }
}

/// Computes the backoff after some retries.
pub fn compute_backoff(config: &RetryConfig, consecutive_retries: u32) -> (r: Duration)
    requires
        config.wf(),
    ensures
        r.wf(),
        r.total() == backoff_nanos(*config, consecutive_retries as nat),
        r.total() <= config.max_backoff.total(),
{
    let max: u128 = config.max_backoff.as_nanos();
    let initial: u128 = config.initial_backoff.as_nanos();
    assert(max <= 0xffff_ffff_ffff_ffff * 1_000_000_000 + 999_999_999);
    assert(initial <= 0xffff_ffff_ffff_ffff * 1_000_000_000 + 999_999_999);
    if initial == 0 {
        assert(0 * pow2(consecutive_retries as nat) == 0) by (nonlinear_arith);
        return Duration::from_nanos(0);
    }
    let mut value: u128 = initial;
    let mut i: u32 = 0;
    proof {
        vstd::arithmetic::power2::lemma2_to64();
        assert(initial * pow2(0) == initial);
    }
    while i < consecutive_retries
        invariant
            i <= consecutive_retries,
            config.wf(),
            initial == config.initial_backoff.total(),
            max == config.max_backoff.total(),
            max <= 0xffff_ffff_ffff_ffff * 1_000_000_000 + 999_999_999,
            initial <= 0xffff_ffff_ffff_ffff * 1_000_000_000 + 999_999_999,
            value == initial * pow2(i as nat),
            i == 0 || value <= 2 * max,
        decreases consecutive_retries - i,
    {
        if value > max {
            proof {
                lemma_doubling_grows(initial as nat, i as nat, consecutive_retries as nat);
            }
            return config.max_backoff;
        }
        proof {
            lemma_pow2_unfold((i + 1) as nat);
            let m = pow2(i as nat);
            assert(initial * (2 * m) == 2 * (initial * m)) by (nonlinear_arith);
        }
        value = value * 2;
        i = i + 1;
    }
    if value > max {
        return config.max_backoff;
    }
    assert(value / 1_000_000_000 <= u64::MAX);
    Duration::from_nanos(value)
}

/// The backoff never exceeds the configured maximum, and never shrinks from one
/// retry to the next.
pub proof fn law_backoff_is_capped_and_grows(config: RetryConfig, retries: nat)
    ensures
        backoff_nanos(config, retries) <= config.max_backoff.total(),
        backoff_nanos(config, retries) <= backoff_nanos(config, retries + 1),
{
    lemma_doubling_grows(config.initial_backoff.total(), retries, retries + 1);
}

/// The first backoff is the configured one, and each further one is twice the one before it,
/// up to the maximum.
pub proof fn law_backoff_doubles(config: RetryConfig, retries: nat)
    ensures
        backoff_nanos(config, 0) == lesser(
            config.initial_backoff.total() as int,
            config.max_backoff.total() as int,
        ),
        backoff_nanos(config, retries + 1) == lesser(
            2 * backoff_nanos(config, retries) as int,
            config.max_backoff.total() as int,
        ),
{
    let value = config.initial_backoff.total();
    vstd::arithmetic::power2::lemma2_to64();
    lemma_pow2_unfold(retries + 1);
    let m = pow2(retries);
    assert(value * (2 * m) == 2 * (value * m)) by (nonlinear_arith);
    assert(value * m >= 0) by (nonlinear_arith)
        requires
            value >= 0,
            m >= 0,
    ;
    assert(value * 1 == value);
}

/// Why a request failed.
#[derive(Debug, Clone, Copy, PartialEq, Eq, Structural)]
pub enum RequestFailure {
    Io,
    Timeout,
    HostNotFound,
    ConnectionFailed,
    /// Anything else, such as an error status.
    Other,
}

impl RequestFailure {
    /// Whether the failure is transient and worth retrying.
    pub open spec fn retryable(self) -> bool {
        !(self is Other)
    }

    /// Determines whether the failure is transient and worth retrying.
    pub fn is_retryable(self) -> (r: bool)
        ensures
            r == self.retryable(),
    {
        match self {
            RequestFailure::Io
            | RequestFailure::Timeout
            | RequestFailure::HostNotFound
            | RequestFailure::ConnectionFailed => true,
            RequestFailure::Other => false,
        }
    }
}

/// What to do after a failed request.
#[derive(Debug, Clone, Copy, PartialEq, Eq, Structural)]
pub enum RetryDecision {
    /// Give up.
    GiveUp,
    /// Wait, then try again.
    Wait(Duration),
}

/// Decides what to do after a failed request: transient failures are retried until
/// the maximum is reached.
pub fn decide_retry(config: &RetryConfig, failure: RequestFailure, consecutive_retries: u32) -> (r:
    RetryDecision)
    requires
        config.wf(),
    ensures
        r is GiveUp == (!failure.retryable() || consecutive_retries >= config.max_retries),
        r matches RetryDecision::Wait(backoff) ==> backoff.wf() && backoff.total()
            == backoff_nanos(*config, consecutive_retries as nat),
{
    if !failure.is_retryable() || consecutive_retries >= config.max_retries {
        return RetryDecision::GiveUp;
    }
    RetryDecision::Wait(compute_backoff(config, consecutive_retries))
}

/// A request that is repeated until it succeeds, fails for good or has been retried
/// as often as configured.
#[derive(Debug, Clone, Copy, PartialEq, Eq, Structural)]
pub struct RetryLoop {
    pub consecutive_retries: u32,
}

impl RetryLoop {
    /// A request that has not been tried yet.
    pub fn new() -> (r: RetryLoop)
        ensures
            r.consecutive_retries == 0,
    {
        RetryLoop { consecutive_retries: 0 }
    }

    /// Takes a failure and decides what to do.
    pub fn failed(&mut self, config: &RetryConfig, failure: RequestFailure) -> (r: RetryDecision)
        requires
            config.wf(),
            old(self).consecutive_retries <= config.max_retries,
        ensures
            final(self).consecutive_retries <= config.max_retries,
            r is GiveUp == (!failure.retryable() || old(self).consecutive_retries
                == config.max_retries),
            r is GiveUp ==> *final(self) == *old(self),
            r matches RetryDecision::Wait(backoff) ==> {
                &&& backoff.total() == backoff_nanos(*config, old(self).consecutive_retries as nat)
                &&& final(self).consecutive_retries == old(self).consecutive_retries + 1
            },
    {
        let decision = decide_retry(config, failure, self.consecutive_retries);
        match decision {
            RetryDecision::GiveUp => {},
            RetryDecision::Wait(_) => {
                self.consecutive_retries = self.consecutive_retries + 1;
            },
        }
        decision
    }
}

/// The value of a `Range` header for the bytes from `start` up to, and without,
/// `end`.
pub open spec fn range_text(start: nat, end: nat) -> Seq<char> {
    "bytes="@ + decimal(start) + "-"@ + decimal((end - 1) as nat)
}

/// Renders the `Range` header for the bytes from `start` up to, and without, `end`.
pub fn range_header(start: u64, end: u64) -> (r: String)
    requires
        start < end,
    ensures
        r@ == range_text(start as nat, end as nat),
{
    let first = concat("bytes=", to_decimal(start).as_str());
    let dashed = concat(first.as_str(), "-");
    concat(dashed.as_str(), to_decimal(end - 1).as_str())
}

/// The last slash of a text, looking before position `n` only.
pub open spec fn last_slash(s: Seq<char>, n: nat) -> Option<nat>
    decreases n,
{
    if n == 0 {
        None
    } else if s[n - 1] == '/' {
        Some((n - 1) as nat)
    } else {
        last_slash(s, (n - 1) as nat)
    }
}

/// The total size that a `Content-Range` header states: the number after its last
/// slash.
pub open spec fn range_total(header: Seq<char>) -> Option<nat> {
    match last_slash(header, header.len()) {
        Some(i) => parsed(trimmed(header.skip(i as int + 1)), u64::MAX as nat),
        None => None,
    }
}

/// Reads the total size from a `Content-Range` header.
pub fn parse_range_total(header: &str) -> (r: Option<u64>)
    ensures
        match r {
            Some(total) => range_total(header@) == Some(total as nat),
            None => range_total(header@) is None,
        },
{
    let chars = chars_of(header);
    let mut n: usize = chars.len();
    while n > 0
        invariant
            n <= chars@.len(),
            chars@ == header@,
            last_slash(header@, n as nat) == last_slash(header@, header@.len()),
        decreases n,
    {
        if chars[n - 1] == '/' {
            let rest = string_of_range(&chars, n, chars.len());
            assert(rest@ =~= header@.skip(n as int));
            return parse_u64(trim(rest.as_str()).as_str());
        }
        n = n - 1;
    }
    None
}

/// Minimal size of chunks to be fetched individually via range queries.
pub const MIN_CHUNK_SIZE: u64 = 65536;

/// Bytes that are skipped at a time by reading them.
pub const SKIP_SIZE: u64 = 8192;

/// Why a bundle cannot be fetched.
#[derive(Debug, Clone, Copy, PartialEq, Eq, Structural)]
pub enum HttpError {
    /// The request failed, and retrying does not help or did not.
    RequestFailed,
    /// The server did not answer a range request with a part.
    UnexpectedStatus { status: u16 },
    /// The size changed during the download.
    LengthChanged { expected: u64, found: u64 },
    /// The response is not available but range queries are not supported.
    NoRangeQueries,
    /// The response could not be read.
    ReadFailed,
    /// The position lies beyond the end.
    BeyondEnd,
    /// There is nothing to fetch.
    Empty,
    /// A position does not fit.
    Overflow,
    /// The outcome is not one of the last action.
    UnexpectedOutcome,
}

/// How a download begins.
#[derive(Debug, Clone, Copy, PartialEq, Eq, Structural)]
pub enum OpenAction {
    /// Request the first byte to learn about the size and about range support.
    Probe,
    /// Request the bytes up to, and without, `end`.
    FetchFirst { end: u64 },
    /// Request everything.
    FetchAll,
    /// There is nothing to fetch.
    Fail(HttpError),
}

/// The first action of a download.
pub fn open(use_range_queries: bool) -> (r: OpenAction)
    ensures
        r == if use_range_queries {
            OpenAction::Probe
        } else {
            OpenAction::FetchAll
        },
{
    if use_range_queries {
        OpenAction::Probe
    } else {
        OpenAction::FetchAll
    }
}

/// The action after the probe: with the size that the server stated, the first
/// chunk is requested; without it, everything.
pub fn open_probed(total: Option<u64>) -> (r: OpenAction)
    ensures
        r == match total {
            Some(total) => if total == 0 {
                OpenAction::Fail(HttpError::Empty)
            } else if total < MIN_CHUNK_SIZE {
                OpenAction::FetchFirst { end: total }
            } else {
                OpenAction::FetchFirst { end: MIN_CHUNK_SIZE }
            },
            None => OpenAction::FetchAll,
        },
{
    match total {
        Some(total) => if total == 0 {
            OpenAction::Fail(HttpError::Empty)
        } else if total < MIN_CHUNK_SIZE {
            OpenAction::FetchFirst { end: total }
        } else {
            OpenAction::FetchFirst { end: MIN_CHUNK_SIZE }
        },
        None => OpenAction::FetchAll,
    }
}

/// What a read wants done next.
#[allow(inconsistent_fields)]
#[derive(Debug, Clone, Copy, PartialEq, Eq, Structural)]
pub enum ReadAction {
    /// Read and drop at most this many bytes of the current response.
    SkipBytes { count: u64 },
    /// Drop the current response and request the bytes from `start` up to, and
    /// without, `end`.
    Fetch { start: u64, end: u64 },
    /// Wait, then report back.
    Wait(Duration),
    /// Read from the current response into the buffer.
    Read,
    /// The read is over; this many bytes were read.
    Return { count: usize },
    /// The read failed.
    Fail(HttpError),
}

/// Outcome of an action of a read.
#[allow(inconsistent_fields)]
#[derive(Debug, Clone, Copy, PartialEq, Eq, Structural)]
pub enum ReadEvent {
    /// Bytes were read from the current response.
    Bytes { count: usize },
    /// The current response is at its end.
    End,
    /// The current response could not be read.
    Failed,
    /// The server answered the request.
    Fetched { status: u16, total: Option<u64> },
    /// The request failed.
    FetchFailed { failure: RequestFailure },
    /// The wait is over.
    Waited,
}

/// Progress of a read.
#[derive(Debug, Clone, Copy, PartialEq, Eq, Structural)]
pub enum ReadPhase {
    /// No read is under way.
    Idle,
    /// Bytes are skipped by reading them.
    Skipping { remaining: u64 },
    /// A chunk is being requested.
    Fetching { end: u64 },
    /// The wait before the next request.
    Waiting { end: u64 },
    /// Bytes are being read.
    Reading,
}

/// A bundle that is fetched over HTTP.
#[derive(Debug, Clone, Copy)]
pub struct HttpSource {
    pub use_range_queries: bool,
    /// Whether there is a response to read from.
    pub has_response: bool,
    pub content_length: Option<u64>,
    /// End of the current response.
    pub current_end: Option<u64>,
    pub next_chunk_end: Option<u64>,
    pub current_position: u64,
    pub current_skipped: u64,
    pub bytes_read: u64,
    pub bytes_skipped: u64,
    pub retry_config: RetryConfig,
    /// Tracks consecutive retries in the current failure sequence.
    pub consecutive_retries: u32,
    /// Size of the buffer of the current read.
    pub slice_len: u64,
    pub phase: ReadPhase,
}

/// How much of a bundle was transferred and how much was skipped.
#[derive(Debug, Clone, Copy, PartialEq, Eq, Structural)]
pub struct DownloadStats {
    pub bytes_read: u64,
    pub bytes_skipped: u64,
}

impl DownloadStats {
    /// The size of the part of the bundle that is behind.
    pub fn total_bytes(&self) -> (r: u64)
        requires
            self.bytes_read + self.bytes_skipped <= u64::MAX,
        ensures
            r == self.bytes_read + self.bytes_skipped,
    {
        self.bytes_read + self.bytes_skipped
    }
}

/// The lesser of two numbers.
pub open spec fn lesser(a: int, b: int) -> int {
    if a < b {
        a
    } else {
        b
    }
}

/// The greater of two numbers.
pub open spec fn greater(a: int, b: int) -> int {
    if a > b {
        a
    } else {
        b
    }
}

impl HttpSource {
    /// What was transferred and what was skipped lies before the position; and range
    /// queries need the size.
    pub open spec fn wf(self) -> bool {
        &&& self.retry_config.wf()
        &&& self.use_range_queries ==> self.content_length is Some
        &&& self.bytes_read + self.bytes_skipped <= self.current_position
        &&& match self.phase {
            ReadPhase::Skipping { remaining } => {
                &&& remaining <= self.current_skipped
                &&& self.has_response
                &&& self.bytes_read + self.bytes_skipped + self.current_skipped
                    <= self.current_position
            },
            ReadPhase::Idle => self.bytes_read + self.bytes_skipped + self.current_skipped
                <= u64::MAX,
            ReadPhase::Fetching { end } => {
                &&& self.current_skipped == 0
                &&& self.current_position < end
            },
            ReadPhase::Waiting { end } => {
                &&& self.current_skipped == 0
                &&& self.current_position < end
            },
            ReadPhase::Reading => {
                &&& self.current_skipped == 0
                &&& self.has_response
            },
        }
    }

    /// Whether every byte up to the position was either transferred or skipped. That is so
    /// until the response cannot be read while bytes are skipped, and no other one is
    /// requested: the position is then past those bytes, and they are still to be skipped.
    pub open spec fn accounted(self) -> bool {
        match self.phase {
            ReadPhase::Skipping { .. } => self.bytes_read + self.bytes_skipped
                + self.current_skipped == self.current_position,
            _ => self.bytes_read + self.bytes_skipped == self.current_position,
        }
    }

    /// Whether an outcome ends the read while bytes are skipped.
    pub open spec fn breaks(self, event: ReadEvent) -> bool {
        self.phase is Skipping && event is Failed && !self.reconnects()
    }

    /// The end of the next chunk to request: at least a chunk or the buffer, at least
    /// up to the hint, at most up to the end of the bundle.
    pub open spec fn next_end(self) -> int {
        lesser(
            greater(
                self.current_position + greater(MIN_CHUNK_SIZE as int, self.slice_len as int),
                match self.next_chunk_end {
                    Some(end) => end as int,
                    None => 0,
                },
            ),
            self.content_length->0 as int,
        )
    }

    /// This source after its read is over.
    pub open spec fn idle(self) -> HttpSource {
        HttpSource { phase: ReadPhase::Idle, ..self }
    }

    /// The source and the action once everything that was to be skipped is.
    pub open spec fn to_read(self) -> (HttpSource, ReadAction) {
        if self.has_response {
            (HttpSource { phase: ReadPhase::Reading, ..self }, ReadAction::Read)
        } else if !self.use_range_queries {
            if self.content_length == Some(self.current_position) {
                (self.idle(), ReadAction::Return { count: 0 })
            } else {
                (self.idle(), ReadAction::Fail(HttpError::NoRangeQueries))
            }
        } else {
            let end = self.next_end();
            let cleared = HttpSource { next_chunk_end: None, ..self };
            if self.current_position == end {
                (cleared.idle(), ReadAction::Return { count: 0 })
            } else if self.current_position > end {
                (cleared.idle(), ReadAction::Fail(HttpError::BeyondEnd))
            } else {
                (
                    HttpSource { phase: ReadPhase::Fetching { end: end as u64 }, ..cleared },
                    ReadAction::Fetch { start: self.current_position, end: end as u64 },
                )
            }
        }
    }

    /// The source with `remaining` of the skipped bytes not transferred.
    pub open spec fn skipped(self, remaining: u64) -> HttpSource {
        HttpSource {
            bytes_read: (self.bytes_read + (self.current_skipped - remaining)) as u64,
            bytes_skipped: (self.bytes_skipped + remaining) as u64,
            current_skipped: 0,
            ..self
        }
    }

    /// The source and the first action of a read.
    pub open spec fn to_begin(self, slice_len: u64) -> (HttpSource, ReadAction) {
        let entered = HttpSource { slice_len, ..self };
        if self.current_skipped == 0 {
            entered.to_read()
        } else if self.current_position + self.current_skipped > u64::MAX {
            (entered, ReadAction::Fail(HttpError::Overflow))
        } else {
            let position = (self.current_position + self.current_skipped) as u64;
            let moved = HttpSource { current_position: position, ..entered };
            if self.current_end is Some && position >= self.current_end->0 {
                // The response does not reach the position.
                let dropped = lesser(
                    position - self.current_end->0,
                    self.current_skipped as int,
                ) as u64;
                (HttpSource { has_response: false, ..moved }).skipped(dropped).to_read()
            } else if self.has_response {
                (
                    HttpSource {
                        phase: ReadPhase::Skipping { remaining: self.current_skipped },
                        ..moved
                    },
                    ReadAction::SkipBytes {
                        count: lesser(self.current_skipped as int, SKIP_SIZE as int) as u64,
                    },
                )
            } else {
                moved.skipped(self.current_skipped).to_read()
            }
        }
    }

    /// Whether a failed read is answered with a new request.
    pub open spec fn reconnects(self) -> bool {
        self.use_range_queries && self.consecutive_retries < self.retry_config.max_retries
    }

    /// The source after a failed read that is answered with a new request.
    pub open spec fn disconnected(self) -> HttpSource {
        HttpSource {
            has_response: false,
            consecutive_retries: (self.consecutive_retries + 1) as u32,
            ..self
        }
    }

    /// The source and the action that follow an outcome.
    pub open spec fn step(self, event: ReadEvent) -> (HttpSource, ReadAction) {
        match (self.phase, event) {
            (ReadPhase::Skipping { remaining }, ReadEvent::Bytes { count }) => if count > remaining
                || count > SKIP_SIZE {
                (
                    self.skipped(remaining).idle(),
                    ReadAction::Fail(HttpError::UnexpectedOutcome),
                )
            } else if count == remaining {
                self.skipped(0).to_read()
            } else {
                let left = (remaining - count) as u64;
                (
                    HttpSource { phase: ReadPhase::Skipping { remaining: left }, ..self },
                    ReadAction::SkipBytes { count: lesser(left as int, SKIP_SIZE as int) as u64 },
                )
            },
            (ReadPhase::Skipping { remaining }, ReadEvent::End) => (HttpSource {
                has_response: false,
                ..self
            }).skipped(remaining).to_read(),
            (ReadPhase::Skipping { remaining }, ReadEvent::Failed) => if self.reconnects() {
                self.disconnected().skipped(remaining).to_read()
            } else {
                (self.idle(), ReadAction::Fail(HttpError::ReadFailed))
            },
            (ReadPhase::Fetching { end }, ReadEvent::Fetched { status, total }) => {
                let answered = HttpSource { consecutive_retries: 0, ..self };
                if status != 206 {
                    (answered.idle(), ReadAction::Fail(HttpError::UnexpectedStatus { status }))
                } else if self.content_length is Some && total is Some && total->0
                    != self.content_length->0 {
                    (
                        answered.idle(),
                        ReadAction::Fail(
                            HttpError::LengthChanged {
                                expected: self.content_length->0,
                                found: total->0,
                            },
                        ),
                    )
                } else {
                    (
                        HttpSource {
                            has_response: true,
                            current_end: Some(end),
                            phase: ReadPhase::Reading,
                            ..answered
                        },
                        ReadAction::Read,
                    )
                }
            },
            (ReadPhase::Fetching { end }, ReadEvent::FetchFailed { failure }) => if !failure.retryable()
                || self.consecutive_retries >= self.retry_config.max_retries {
                (self.idle(), ReadAction::Fail(HttpError::RequestFailed))
            } else {
                (
                    HttpSource {
                        consecutive_retries: (self.consecutive_retries + 1) as u32,
                        phase: ReadPhase::Waiting { end },
                        ..self
                    },
                    ReadAction::Wait(
                        wait_of(backoff_nanos(self.retry_config, self.consecutive_retries as nat)),
                    ),
                )
            },
            (ReadPhase::Waiting { end }, ReadEvent::Waited) => (
                HttpSource { phase: ReadPhase::Fetching { end }, ..self },
                ReadAction::Fetch { start: self.current_position, end },
            ),
            (ReadPhase::Reading, ReadEvent::Bytes { count }) => if count == 0 {
                (HttpSource { has_response: false, ..self }).to_read()
            } else if self.current_position + count > u64::MAX {
                (self.idle(), ReadAction::Fail(HttpError::Overflow))
            } else {
                (
                    HttpSource {
                        consecutive_retries: 0,
                        bytes_read: (self.bytes_read + count) as u64,
                        current_position: (self.current_position + count) as u64,
                        phase: ReadPhase::Idle,
                        ..self
                    },
                    ReadAction::Return { count },
                )
            },
            (ReadPhase::Reading, ReadEvent::End) => (HttpSource {
                has_response: false,
                ..self
            }).to_read(),
            (ReadPhase::Reading, ReadEvent::Failed) => if self.reconnects() {
                self.disconnected().to_read()
            } else {
                (self.idle(), ReadAction::Fail(HttpError::ReadFailed))
            },
            (ReadPhase::Skipping { remaining }, _) => (
                self.skipped(remaining).idle(),
                ReadAction::Fail(HttpError::UnexpectedOutcome),
            ),
            _ => (self.idle(), ReadAction::Fail(HttpError::UnexpectedOutcome)),
        }
    }

    /// A source whose first response is there: up to `end` for range queries.
    pub fn new(
        use_range_queries: bool,
        content_length: Option<u64>,
        end: Option<u64>,
        retry_config: RetryConfig,
    ) -> (r: HttpSource)
        requires
            retry_config.wf(),
            use_range_queries ==> content_length is Some,
        ensures
            r.wf(),
            r == (HttpSource {
                use_range_queries,
                has_response: true,
                content_length,
                current_end: end,
                next_chunk_end: None,
                current_position: 0,
                current_skipped: 0,
                bytes_read: 0,
                bytes_skipped: 0,
                retry_config,
                consecutive_retries: 0,
                slice_len: 0,
                phase: ReadPhase::Idle,
            }),
    {
        HttpSource {
            use_range_queries,
            has_response: true,
            content_length,
            current_end: end,
            next_chunk_end: None,
            current_position: 0,
            current_skipped: 0,
            bytes_read: 0,
            bytes_skipped: 0,
            retry_config,
            consecutive_retries: 0,
            slice_len: 0,
            phase: ReadPhase::Idle,
        }
    }

    /// How much was transferred and how much was skipped.
    pub fn get_download_stats(&self) -> (r: DownloadStats)
        ensures
            r == (DownloadStats { bytes_read: self.bytes_read, bytes_skipped: self.bytes_skipped }),
    {
        DownloadStats { bytes_read: self.bytes_read, bytes_skipped: self.bytes_skipped }
    }

    fn proceed(self) -> (r: (HttpSource, ReadAction))
        requires
            self.retry_config.wf(),
            self.use_range_queries ==> self.content_length is Some,
            self.bytes_read + self.bytes_skipped <= self.current_position,
            self.current_skipped == 0,
        ensures
            r == self.to_read(),
            r.0.wf(),
            r.0.accounted() == (self.bytes_read + self.bytes_skipped == self.current_position),
            r.1 matches ReadAction::Fetch { start, end } ==> start == r.0.current_position && start
                < end <= r.0.content_length->0,
    {
        if self.has_response {
            return (HttpSource { phase: ReadPhase::Reading, ..self }, ReadAction::Read);
        }
        if !self.use_range_queries {
            let idle = HttpSource { phase: ReadPhase::Idle, ..self };
            let at_end = match self.content_length {
                Some(length) => length == self.current_position,
                None => false,
            };
            return if at_end {
                (idle, ReadAction::Return { count: 0 })
            } else {
                (idle, ReadAction::Fail(HttpError::NoRangeQueries))
            };
        }
        let length: u64 = self.content_length.unwrap();
        let least: u64 = if self.slice_len > MIN_CHUNK_SIZE {
            self.slice_len
        } else {
            MIN_CHUNK_SIZE
        };
        let mut end: u64 = self.current_position.saturating_add(least);
        if let Some(hint) = self.next_chunk_end {
            if hint > end {
                end = hint;
            }
        }
        if end > length {
            end = length;
        }
        assert(end == self.next_end());
        let cleared = HttpSource { next_chunk_end: None, phase: ReadPhase::Idle, ..self };
        if self.current_position == end {
            (cleared, ReadAction::Return { count: 0 })
        } else if self.current_position > end {
            (cleared, ReadAction::Fail(HttpError::BeyondEnd))
        } else {
            (
                HttpSource { phase: ReadPhase::Fetching { end }, ..cleared },
                ReadAction::Fetch { start: self.current_position, end },
            )
        }
    }

    fn account(self, remaining: u64) -> (r: HttpSource)
        requires
            remaining <= self.current_skipped,
            self.bytes_read + self.bytes_skipped + self.current_skipped <= u64::MAX,
        ensures
            r == self.skipped(remaining),
    {
        HttpSource {
            bytes_read: self.bytes_read + (self.current_skipped - remaining),
            bytes_skipped: self.bytes_skipped + remaining,
            current_skipped: 0,
            ..self
        }
    }

    /// Begins a read into a buffer of the given size. What is still to be skipped is skipped
    /// first.
    pub fn read(self, slice_len: usize) -> (r: (HttpSource, ReadAction))
        requires
            self.wf(),
            self.phase is Idle,
            slice_len > 0,
        ensures
            r == self.to_begin(slice_len as u64),
            r.0.wf(),
            self.accounted() ==> r.0.accounted(),
            r.1 matches ReadAction::Fetch { start, end } ==> start == r.0.current_position && start
                < end <= r.0.content_length->0,
    {
        let entered = HttpSource { slice_len: slice_len as u64, ..self };
        if self.current_skipped == 0 {
            return entered.proceed();
        }
        if self.current_skipped > u64::MAX - self.current_position {
            return (entered, ReadAction::Fail(HttpError::Overflow));
        }
        let position: u64 = self.current_position + self.current_skipped;
        let moved = HttpSource { current_position: position, ..entered };
        let exceeded = match self.current_end {
            Some(end) => position >= end,
            None => false,
        };
        if exceeded {
            let end: u64 = self.current_end.unwrap();
            let mut dropped: u64 = position - end;
            if dropped > self.current_skipped {
                dropped = self.current_skipped;
            }
            let without = HttpSource { has_response: false, ..moved };
            return without.account(dropped).proceed();
        }
        if self.has_response {
            let count: u64 = if self.current_skipped < SKIP_SIZE {
                self.current_skipped
            } else {
                SKIP_SIZE
            };
            return (
                HttpSource {
                    phase: ReadPhase::Skipping { remaining: self.current_skipped },
                    ..moved
                },
                ReadAction::SkipBytes { count },
            );
        }
        moved.account(self.current_skipped).proceed()
    }

    /// Takes the outcome of the last action of a read and names the next one.
    ///
    /// Every request is for the bytes from the current position on, and never for
    /// any beyond the end. A failed request is retried at most as often in a row as
    /// configured.
    pub fn next(self, event: ReadEvent) -> (r: (HttpSource, ReadAction))
        requires
            self.wf(),
        ensures
            r == self.step(event),
            r.0.wf(),
            self.accounted() && !self.breaks(event) ==> r.0.accounted(),
            r.1 matches ReadAction::Fetch { start, .. } ==> start == r.0.current_position,
            r.1 is Wait ==> r.0.consecutive_retries <= r.0.retry_config.max_retries,
            r.1 matches ReadAction::Return { count } ==> count > 0 ==> (event
                == ReadEvent::Bytes { count }) && r.0.current_position == self.current_position
                + count,
    {
        let reconnects = self.use_range_queries && self.consecutive_retries
            < self.retry_config.max_retries;
        match (self.phase, event) {
            (ReadPhase::Skipping { remaining }, ReadEvent::Bytes { count }) => {
                if count as u64 > remaining || count as u64 > SKIP_SIZE {
                    let done = self.account(remaining);
                    return (
                        HttpSource { phase: ReadPhase::Idle, ..done },
                        ReadAction::Fail(HttpError::UnexpectedOutcome),
                    );
                }
                let left: u64 = remaining - count as u64;
                if left == 0 {
                    return self.account(0).proceed();
                }
                let next: u64 = if left < SKIP_SIZE {
                    left
                } else {
                    SKIP_SIZE
                };
                (
                    HttpSource { phase: ReadPhase::Skipping { remaining: left }, ..self },
                    ReadAction::SkipBytes { count: next },
                )
            },
            (ReadPhase::Skipping { remaining }, ReadEvent::End) => {
                let without = HttpSource { has_response: false, ..self };
                without.account(remaining).proceed()
            },
            (ReadPhase::Skipping { remaining }, ReadEvent::Failed) => {
                if reconnects {
                    let without = HttpSource {
                        has_response: false,
                        consecutive_retries: self.consecutive_retries + 1,
                        ..self
                    };
                    return without.account(remaining).proceed();
                }
                (
                    HttpSource { phase: ReadPhase::Idle, ..self },
                    ReadAction::Fail(HttpError::ReadFailed),
                )
            },
            (ReadPhase::Skipping { remaining }, _) => {
                let done = self.account(remaining);
                (
                    HttpSource { phase: ReadPhase::Idle, ..done },
                    ReadAction::Fail(HttpError::UnexpectedOutcome),
                )
            },
            (ReadPhase::Fetching { end }, ReadEvent::Fetched { status, total }) => {
                let answered = HttpSource { consecutive_retries: 0, ..self };
                let idle = HttpSource { phase: ReadPhase::Idle, ..answered };
                if status != 206 {
                    return (idle, ReadAction::Fail(HttpError::UnexpectedStatus { status }));
                }
                if let Some(expected) = self.content_length {
                    if let Some(found) = total {
                        if found != expected {
                            return (
                                idle,
                                ReadAction::Fail(HttpError::LengthChanged { expected, found }),
                            );
                        }
                    }
                }
                (
                    HttpSource {
                        has_response: true,
                        current_end: Some(end),
                        phase: ReadPhase::Reading,
                        ..answered
                    },
                    ReadAction::Read,
                )
            },
            (ReadPhase::Fetching { end }, ReadEvent::FetchFailed { failure }) => match decide_retry(
                &self.retry_config,
                failure,
                self.consecutive_retries,
            ) {
                RetryDecision::GiveUp => (
                    HttpSource { phase: ReadPhase::Idle, ..self },
                    ReadAction::Fail(HttpError::RequestFailed),
                ),
                RetryDecision::Wait(backoff) => {
                    let wait = Duration::from_nanos(backoff.as_nanos());
                    proof {
                        lemma_wait(wait);
                    }
                    (
                        HttpSource {
                            consecutive_retries: self.consecutive_retries + 1,
                            phase: ReadPhase::Waiting { end },
                            ..self
                        },
                        ReadAction::Wait(wait),
                    )
                },
            },
            (ReadPhase::Waiting { end }, ReadEvent::Waited) => (
                HttpSource { phase: ReadPhase::Fetching { end }, ..self },
                ReadAction::Fetch { start: self.current_position, end },
            ),
            (ReadPhase::Reading, ReadEvent::Bytes { count }) => {
                if count == 0 {
                    let without = HttpSource { has_response: false, ..self };
                    return without.proceed();
                }
                if count as u64 > u64::MAX - self.current_position {
                    return (
                        HttpSource { phase: ReadPhase::Idle, ..self },
                        ReadAction::Fail(HttpError::Overflow),
                    );
                }
                (
                    HttpSource {
                        consecutive_retries: 0,
                        bytes_read: self.bytes_read + count as u64,
                        current_position: self.current_position + count as u64,
                        phase: ReadPhase::Idle,
                        ..self
                    },
                    ReadAction::Return { count },
                )
            },
            (ReadPhase::Reading, ReadEvent::End) => {
                let without = HttpSource { has_response: false, ..self };
                without.proceed()
            },
            (ReadPhase::Reading, ReadEvent::Failed) => {
                if reconnects {
                    let without = HttpSource {
                        has_response: false,
                        consecutive_retries: self.consecutive_retries + 1,
                        ..self
                    };
                    return without.proceed();
                }
                (
                    HttpSource { phase: ReadPhase::Idle, ..self },
                    ReadAction::Fail(HttpError::ReadFailed),
                )
            },
            _ => (
                HttpSource { phase: ReadPhase::Idle, ..self },
                ReadAction::Fail(HttpError::UnexpectedOutcome),
            ),
        }
    }

    /// Tells how much is going to be read next. The part of the hint that lies beyond
    /// what a position can be is of no use.
    pub fn hint_next_chunk(self, length: u64) -> (r: HttpSource)
        requires
            self.wf(),
        ensures
            r.wf(),
            r == if length != 0 {
                HttpSource {
                    next_chunk_end: Some(
                        lesser(self.current_position + length, u64::MAX as int) as u64,
                    ),
                    ..self
                }
            } else {
                self
            },
    {
        if length != 0 {
            HttpSource {
                next_chunk_end: Some(self.current_position.saturating_add(length)),
                ..self
            }
        } else {
            self
        }
    }

    /// Skips bytes. They are not transferred where that can be avoided.
    pub fn skip(self, length: u64) -> (r: Result<HttpSource, HttpError>)
        requires
            self.wf(),
            self.phase is Idle,
        ensures
            match r {
                Ok(source) => source.wf() && source == (HttpSource {
                    current_skipped: (self.current_skipped + length) as u64,
                    ..self
                }) && self.current_position + self.current_skipped + length <= u64::MAX,
                Err(e) => e == HttpError::Overflow && self.current_position + self.current_skipped
                    + length > u64::MAX,
            },
    {
        let free: u64 = u64::MAX - self.current_position;
        if self.current_skipped > free || length > free - self.current_skipped {
            return Err(HttpError::Overflow);
        }
        Ok(HttpSource { current_skipped: self.current_skipped + length, ..self })
    }

    /// The bytes of the bundle that are behind: transferred, skipped or about to be.
    pub fn bytes_read(&self) -> (r: u64)
        requires
            self.wf(),
            self.phase is Idle,
        ensures
            r == self.bytes_read + self.bytes_skipped + self.current_skipped,
            self.accounted() ==> r == self.current_position + self.current_skipped,
    {
        self.bytes_read + self.bytes_skipped + self.current_skipped
    }

    /// The size of the bundle, where it is known.
    pub fn bytes_total(&self) -> (r: Option<u64>)
        ensures
            r == self.content_length,
    {
        self.content_length
    }
}

/// The span of time of the given length.
pub open spec fn wait_of(nanos: nat) -> Duration {
    Duration { secs: (nanos / 1_000_000_000) as u64, nanos: (nanos % 1_000_000_000) as u32 }
}

/// The span of time of a length has that length.
pub proof fn law_wait_has_its_length(nanos: nat)
    requires
        nanos / 1_000_000_000 <= u64::MAX,
    ensures
        wait_of(nanos).secs * 1_000_000_000 + wait_of(nanos).nanos == nanos,
        wait_of(nanos).nanos < 1_000_000_000,
{
}

proof fn lemma_wait(wait: Duration)
    requires
        wait.wf(),
    ensures
        wait == wait_of(wait.total()),
{
}

/// A failure is worth another try where it is one of the network or of time.
pub proof fn law_transient_failures_are_retried(failure: RequestFailure)
    ensures
        failure.retryable() <==> failure is Io || failure is Timeout || failure is HostNotFound
            || failure is ConnectionFailed,
{
}

/// A range names its first and its last byte.
pub proof fn law_range_names_its_ends(start: nat, end: nat)
    requires
        start < end <= u64::MAX,
    ensures
        exists|first: Seq<char>, last: Seq<char>|
            #![trigger parsed(first, u64::MAX as nat), parsed(last, u64::MAX as nat)]
            range_text(start, end) == "bytes="@ + first + "-"@ + last && parsed(
                first,
                u64::MAX as nat,
            ) == Some(start) && parsed(last, u64::MAX as nat) == Some((end - 1) as nat),
{
    law_decimal_is_parsed(start, u64::MAX as nat);
    law_decimal_is_parsed((end - 1) as nat, u64::MAX as nat);
    assert(parsed(decimal(start), u64::MAX as nat) == Some(start));
}

/// Whether a position is that of the last slash of a text.
pub open spec fn is_last_slash(s: Seq<char>, k: int) -> bool {
    &&& 0 <= k < s.len()
    &&& s[k] == '/'
    &&& forall|j: int| k < j < s.len() ==> #[trigger] s[j] != '/'
}

proof fn lemma_last_slash(s: Seq<char>, n: nat)
    requires
        n <= s.len(),
        forall|j: int| n <= j < s.len() ==> #[trigger] s[j] != '/',
    ensures
        match last_slash(s, n) {
            Some(k) => is_last_slash(s, k as int),
            None => forall|j: int| 0 <= j < s.len() ==> #[trigger] s[j] != '/',
        },
    decreases n,
{
    if n > 0 && s[n - 1] != '/' {
        lemma_last_slash(s, (n - 1) as nat);
    }
}

/// The total size is what is stated behind the last slash, and nothing is stated without one.
pub proof fn law_total_is_stated_behind_the_last_slash(header: Seq<char>, k: int)
    ensures
        is_last_slash(header, k) ==> range_total(header) == parsed(
            trimmed(header.skip(k + 1)),
            u64::MAX as nat,
        ),
        !header.contains('/') ==> range_total(header) is None,
{
    lemma_last_slash(header, header.len());
    if let Some(found) = last_slash(header, header.len()) {
        assert(header[found as int] == '/');
        if is_last_slash(header, k) {
            if k < found {
                assert(header[found as int] != '/');
            } else if k > found {
                assert(header[k] != '/');
            }
        }
    }
}

} // verus!
