//! What every read of a bundle that is fetched over HTTP satisfies.

use vstd::prelude::*;
use crate::http_source::{
    backoff_nanos, wait_of, HttpError, HttpSource, ReadAction, ReadEvent, ReadPhase,
};
use crate::run::Run;

verus! {

/// A run of a read.
pub type ReadRun = Run<HttpSource, ReadAction, ReadEvent>;

/// Whether these are the states, actions and outcomes of a read from its beginning.
pub open spec fn is_read_run(run: ReadRun, source: HttpSource, slice_len: u64) -> bool {
    &&& run.wf()
    &&& source.wf()
    &&& source.phase is Idle
    &&& slice_len > 0
    &&& (run.states[0], run.actions[0]) == source.to_begin(slice_len)
    &&& forall|i: int| #[trigger]
        run.has(i) ==> (run.states[i + 1], run.actions[i + 1]) == run.states[i].step(run.events[i])
}

/// Where a read is to begin: behind what is still to be skipped.
pub open spec fn target(source: HttpSource) -> int {
    source.current_position + source.current_skipped
}

/// Whether the response that is there does not reach a position.
pub open spec fn is_exceeded(source: HttpSource, position: int) -> bool {
    source.current_end is Some && position >= source.current_end->0
}

/// Whether a failed response is replaced by another one.
pub open spec fn can_reconnect(source: HttpSource) -> bool {
    source.use_range_queries && source.consecutive_retries < source.retry_config.max_retries
}

/// Whether an outcome says that nothing more is to be had from the current response, and the
/// read goes on.
pub open spec fn is_over(source: HttpSource, action: ReadAction, event: ReadEvent) -> bool {
    match action {
        ReadAction::SkipBytes { .. } => event is End || (event is Failed && can_reconnect(source)),
        ReadAction::Read => event is End || event == (ReadEvent::Bytes { count: 0 }) || (
        event is Failed && can_reconnect(source)),
        _ => false,
    }
}

/// Whether an outcome is one of the action.
pub open spec fn read_fits(action: ReadAction, event: ReadEvent) -> bool {
    match action {
        ReadAction::SkipBytes { count } => match event {
            ReadEvent::Bytes { count: read } => read <= count,
            _ => event is End || event is Failed,
        },
        ReadAction::Fetch { .. } => event is Fetched || event is FetchFailed,
        ReadAction::Wait(_) => event is Waited,
        ReadAction::Read => event is Bytes || event is End || event is Failed,
        ReadAction::Return { .. } => false,
        ReadAction::Fail(_) => false,
    }
}

/// The bytes that were received before the action `i`.
pub open spec fn received(events: Seq<ReadEvent>, i: int) -> int
    decreases i,
{
    if i <= 0 {
        0
    } else {
        received(events, i - 1) + match events[i - 1] {
            ReadEvent::Bytes { count } => count as int,
            _ => 0,
        }
    }
}

/// Whether a request asks for what is wanted next: from the position on, at least as much as
/// fits into the buffer and at least a chunk, up to the hint, and nothing beyond the end.
pub open spec fn asks_for_next(
    source: HttpSource,
    hint: Option<u64>,
    slice_len: u64,
    action: ReadAction,
) -> bool {
    &&& source.use_range_queries
    &&& source.content_length is Some
    &&& action matches ReadAction::Fetch { start, end } && start == source.current_position && start
        < end && end <= source.content_length->0 && (end == source.content_length->0 || (end
        >= start + slice_len && end >= start + 65536 && (hint is Some ==> end >= hint->0)))
}

/// What is done where there is no response to read from: the rest is requested, the end of
/// the bundle is reported at its end and only there, and otherwise the read fails.
pub open spec fn goes_on_without_response(
    source: HttpSource,
    hint: Option<u64>,
    slice_len: u64,
    action: ReadAction,
) -> bool {
    let position = source.current_position;
    if source.content_length == Some(position) {
        action == ReadAction::Return { count: 0 }
    } else if !source.use_range_queries {
        action == ReadAction::Fail(HttpError::NoRangeQueries)
    } else if position > source.content_length->0 {
        action == ReadAction::Fail(HttpError::BeyondEnd)
    } else {
        asks_for_next(source, hint, slice_len, action)
    }
}

spec fn awaits(source: HttpSource, action: ReadAction) -> bool {
    match source.phase {
        ReadPhase::Idle => action is Return || action is Fail,
        ReadPhase::Skipping { remaining } => remaining > 0 && remaining <= source.current_skipped
            && action == (ReadAction::SkipBytes {
            count: if remaining < 8192 {
                remaining
            } else {
                8192
            },
        }) && source.has_response,
        ReadPhase::Fetching { end } => action == (ReadAction::Fetch {
            start: source.current_position,
            end,
        }) && !source.has_response,
        ReadPhase::Waiting { .. } => action is Wait && !source.has_response,
        ReadPhase::Reading => action is Read && source.has_response,
    }
}

proof fn lemma_awaits(run: ReadRun, source: HttpSource, slice_len: u64, i: int)
    requires
        is_read_run(run, source, slice_len),
        0 <= i < run.actions.len(),
    ensures
        awaits(run.states[i], run.actions[i]),
        run.states[i].slice_len == slice_len,
        run.states[i].content_length == source.content_length,
        run.states[i].use_range_queries == source.use_range_queries,
        run.states[i].retry_config == source.retry_config,
        source.use_range_queries ==> source.content_length is Some,
        run.states[i].wf(),
    decreases i,
{
    if i > 0 {
        assert(run.has(i - 1));
        lemma_awaits(run, source, slice_len, i - 1);
    }
}

/// A read begins behind what is still to be skipped. It reads from the response that is
/// there, where nothing is to be skipped; it skips by reading where the response reaches
/// that far; and otherwise it goes on without that response.
pub proof fn law_read_begins_where_it_should(run: ReadRun, source: HttpSource, slice_len: u64)
    requires
        is_read_run(run, source, slice_len),
        target(source) <= u64::MAX,
    ensures
        ({
            let first = run.actions[0];
            let begun = run.states[0];
            let skipped = source.current_skipped;
            &&& begun.current_position == target(source)
            &&& if skipped == 0 && source.has_response {
                first is Read
            } else if skipped > 0 && source.has_response && !is_exceeded(source, target(source)) {
                first == (ReadAction::SkipBytes {
                    count: if skipped < 8192 {
                        skipped
                    } else {
                        8192
                    },
                })
            } else {
                goes_on_without_response(begun, source.next_chunk_end, slice_len, first)
            }
        }),
{
    lemma_awaits(run, source, slice_len, 0);
}

/// What the bundle has is told truly: the end is reported only where everything up to it is
/// behind, and what is returned is what was read, from the position on.
pub proof fn law_end_is_reported_only_at_the_end(
    run: ReadRun,
    source: HttpSource,
    slice_len: u64,
    i: int,
)
    requires
        is_read_run(run, source, slice_len),
        0 <= i < run.actions.len(),
    ensures
        run.actions[i] == (ReadAction::Return { count: 0 }) ==> run.states[i].content_length
            == Some(run.states[i].current_position),
        run.actions[i] matches ReadAction::Return { count } ==> count > 0 ==> i > 0
            && run.actions[i - 1] is Read && run.events[i - 1] == (ReadEvent::Bytes { count })
            && run.states[i].current_position == run.states[i - 1].current_position + count
            && run.states[i].bytes_read == run.states[i - 1].bytes_read + count,
{
    lemma_awaits(run, source, slice_len, i);
    if i > 0 {
        assert(run.has(i - 1));
        lemma_awaits(run, source, slice_len, i - 1);
    }
}

/// A read goes on as its outcomes demand. Where the current response is over, what is wanted
/// next is requested; an answer is read; a failed request is repeated after a wait, at most
/// as often in a row as configured; and bytes that were read end the read. The position does
/// not move before that, and what is known of the bundle does not change.
#[verifier::rlimit(40)]
pub proof fn law_read_goes_on(run: ReadRun, source: HttpSource, slice_len: u64, i: int)
    requires
        is_read_run(run, source, slice_len),
        run.has(i),
    ensures
        ({
            let from = run.states[i];
            let to = run.states[i + 1];
            let before = run.actions[i];
            let event = run.events[i];
            let after = run.actions[i + 1];
            &&& to.content_length == source.content_length
            &&& to.use_range_queries == source.use_range_queries
            &&& to.retry_config == source.retry_config
            &&& !(after is Return) ==> to.current_position == from.current_position
            &&& is_over(from, before, event) ==> !to.has_response && goes_on_without_response(
                to,
                from.next_chunk_end,
                slice_len,
                after,
            )
            &&& is_over(from, before, event) && event is Failed ==> to.consecutive_retries
                == from.consecutive_retries + 1
            &&& before matches ReadAction::SkipBytes { count } ==> (event matches
                ReadEvent::Bytes { count: read } ==> read < count ==> after is SkipBytes)
            &&& before is Read ==> (event matches ReadEvent::Bytes { count } ==> count > 0
                && from.current_position + count <= u64::MAX ==> after == ReadAction::Return {
                count,
            } && to.consecutive_retries == 0)
            &&& before matches ReadAction::Fetch { end, .. } ==> (event matches
                ReadEvent::Fetched { status, total } ==> status == 206 && (total is None || total
                == source.content_length) ==> after is Read && to.has_response && to.current_end
                == Some(end) && to.consecutive_retries == 0)
            &&& before is Fetch ==> (event matches
                ReadEvent::FetchFailed { failure } ==> !(failure is Other)
                && from.consecutive_retries < from.retry_config.max_retries ==> after
                == ReadAction::Wait(
                wait_of(backoff_nanos(from.retry_config, from.consecutive_retries as nat)),
            ) && to.consecutive_retries == from.consecutive_retries + 1)
            &&& before is Wait && event is Waited ==> i > 0 && after == run.actions[i - 1]
        }),
{
    lemma_awaits(run, source, slice_len, i);
    lemma_awaits(run, source, slice_len, i + 1);
    if i > 0 {
        assert(run.has(i - 1));
        lemma_awaits(run, source, slice_len, i - 1);
    }
}

/// Every action of a read has its cause.
#[verifier::rlimit(40)]
pub proof fn law_read_acts_for_a_reason(run: ReadRun, source: HttpSource, slice_len: u64, i: int)
    requires
        is_read_run(run, source, slice_len),
        run.has(i),
    ensures
        ({
            let from = run.states[i];
            let to = run.states[i + 1];
            let before = run.actions[i];
            let event = run.events[i];
            let after = run.actions[i + 1];
            &&& after is SkipBytes ==> before is SkipBytes && event is Bytes
            &&& after is Read ==> to.has_response && ((before is SkipBytes && event is Bytes) || (
            before is Fetch && event is Fetched && event->status == 206))
            &&& after is Fetch ==> is_over(from, before, event) || (before is Wait
                && event is Waited)
            &&& after is Wait ==> before is Fetch && event is FetchFailed && !(
            event->failure is Other) && from.consecutive_retries < from.retry_config.max_retries
            &&& after == (ReadAction::Return { count: 0 }) ==> is_over(from, before, event)
            &&& after matches ReadAction::Fail(error) ==> match error {
                HttpError::RequestFailed => before is Fetch && event is FetchFailed && (
                event->failure is Other || from.consecutive_retries
                    >= from.retry_config.max_retries),
                HttpError::UnexpectedStatus { status } => before is Fetch && event is Fetched
                    && event->status == status && status != 206,
                HttpError::LengthChanged { expected, found } => before is Fetch && event is Fetched
                    && event->total == Some(found) && source.content_length == Some(expected)
                    && expected != found,
                HttpError::NoRangeQueries => is_over(from, before, event)
                    && !source.use_range_queries && source.content_length != Some(
                    to.current_position,
                ),
                HttpError::ReadFailed => (before is Read || before is SkipBytes) && event is Failed
                    && !can_reconnect(from),
                HttpError::BeyondEnd => is_over(from, before, event)
                    && source.content_length is Some && to.current_position
                    > source.content_length->0,
                HttpError::Empty => false,
                HttpError::Overflow => before is Read && event is Bytes && from.current_position
                    + event->Bytes_count > u64::MAX,
                HttpError::UnexpectedOutcome => !read_fits(before, event),
            }
        }),
{
    lemma_awaits(run, source, slice_len, i);
    lemma_awaits(run, source, slice_len, i + 1);
}

proof fn lemma_skipping(run: ReadRun, source: HttpSource, slice_len: u64, i: int)
    requires
        is_read_run(run, source, slice_len),
        0 <= i < run.actions.len(),
        run.states[i].phase is Skipping,
    ensures
        received(run.events, i) == source.current_skipped
            - run.states[i].phase->Skipping_remaining,
        run.states[i].current_skipped == source.current_skipped,
        run.states[i].bytes_read == source.bytes_read,
        run.states[i].bytes_skipped == source.bytes_skipped,
        source.bytes_read + source.bytes_skipped + source.current_skipped <= u64::MAX,
        source.current_skipped > 0,
    decreases i,
{
    lemma_awaits(run, source, slice_len, i);
    if i > 0 {
        assert(run.has(i - 1));
        lemma_awaits(run, source, slice_len, i - 1);
        lemma_skipping(run, source, slice_len, i - 1);
    }
}

/// Bytes that are skipped by reading them are counted as transferred as far as they were
/// received, and as skipped as far as they were not; then nothing is left to be skipped.
pub proof fn law_skipped_bytes_are_counted(run: ReadRun, source: HttpSource, slice_len: u64, i: int)
    requires
        is_read_run(run, source, slice_len),
        run.has(i),
        run.actions[i] is SkipBytes,
        !(run.actions[i + 1] is SkipBytes),
        read_fits(run.actions[i], run.events[i]),
        !(run.events[i] is Failed) || can_reconnect(run.states[i]),
    ensures
        ({
            let to = run.states[i + 1];
            let bytes = received(run.events, i + 1);
            &&& to.current_skipped == 0
            &&& to.bytes_read == source.bytes_read + bytes
            &&& to.bytes_skipped == source.bytes_skipped + (source.current_skipped - bytes)
            &&& run.actions[i + 1] is Read ==> bytes == source.current_skipped
        }),
{
    lemma_awaits(run, source, slice_len, i);
    lemma_awaits(run, source, slice_len, i + 1);
    lemma_skipping(run, source, slice_len, i);
}

/// Bytes that lie beyond the response that is there are not transferred: they are counted as
/// skipped, and those that the response still had as transferred.
pub proof fn law_bytes_beyond_the_response_are_skipped(
    run: ReadRun,
    source: HttpSource,
    slice_len: u64,
)
    requires
        is_read_run(run, source, slice_len),
        source.current_skipped > 0,
        target(source) <= u64::MAX,
        is_exceeded(source, target(source)) || !source.has_response,
    ensures
        ({
            let begun = run.states[0];
            let beyond = target(source) - source.current_end->0;
            &&& begun.current_skipped == 0
            &&& !begun.has_response
            &&& begun.bytes_read + begun.bytes_skipped == source.bytes_read + source.bytes_skipped
                + source.current_skipped
            &&& is_exceeded(source, target(source)) && beyond <= source.current_skipped
                ==> begun.bytes_skipped == source.bytes_skipped + beyond
            &&& !is_exceeded(source, target(source)) ==> begun.bytes_skipped
                == source.bytes_skipped + source.current_skipped
        }),
{
}

} // verus!
