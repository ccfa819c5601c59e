use rugix_ctrl::http_source::{
    compute_backoff, decide_retry, open, open_probed, parse_range_total, range_header, HttpError,
    HttpSource, OpenAction, ReadAction, ReadEvent, RequestFailure, RetryConfig, RetryDecision,
    RetryLoop, MIN_CHUNK_SIZE, SKIP_SIZE,
};
use rugix_ctrl::time::Duration;

#[test]
fn backoff_doubles_up_to_its_maximum() {
    let config = RetryConfig::default();
    assert_eq!(config.max_retries, 5);
    assert_eq!(compute_backoff(&config, 0), Duration::from_secs(1));
    assert_eq!(compute_backoff(&config, 3), Duration::from_secs(8));
    assert_eq!(compute_backoff(&config, 5), Duration::from_secs(30));
    assert_eq!(compute_backoff(&config, u32::MAX), Duration::from_secs(30));
    let half = RetryConfig {
        max_retries: 1,
        initial_backoff: Duration {
            secs: 0,
            nanos: 500_000_000,
        },
        max_backoff: Duration::from_secs(10),
    };
    assert_eq!(
        compute_backoff(&half, 1),
        Duration { secs: 1, nanos: 0 }
    );
}

#[test]
fn only_transient_failures_are_retried() {
    let config = RetryConfig::default();
    assert_eq!(
        decide_retry(&config, RequestFailure::Other, 0),
        RetryDecision::GiveUp
    );
    assert_eq!(
        decide_retry(&config, RequestFailure::Timeout, 1),
        RetryDecision::Wait(Duration::from_secs(2))
    );
    assert!(RequestFailure::HostNotFound.is_retryable());
    let mut retries = RetryLoop::new();
    for seconds in [1, 2, 4, 8, 16] {
        assert_eq!(
            retries.failed(&config, RequestFailure::Io),
            RetryDecision::Wait(Duration::from_secs(seconds))
        );
    }
    assert_eq!(
        retries.failed(&config, RequestFailure::Io),
        RetryDecision::GiveUp
    );
}

#[test]
fn ranges_are_rendered_and_parsed() {
    assert_eq!(range_header(0, 1), "bytes=0-0");
    assert_eq!(range_header(10, 1024), "bytes=10-1023");
    assert_eq!(parse_range_total("bytes 0-0/1234"), Some(1234));
    assert_eq!(parse_range_total("bytes 0-0/*"), None);
    assert_eq!(parse_range_total("none"), None);
}

#[test]
fn sources_are_opened_with_or_without_ranges() {
    assert_eq!(open(true), OpenAction::Probe);
    assert_eq!(open(false), OpenAction::FetchAll);
    assert_eq!(open_probed(None), OpenAction::FetchAll);
    assert_eq!(open_probed(Some(0)), OpenAction::Fail(HttpError::Empty));
    assert_eq!(
        open_probed(Some(10)),
        OpenAction::FetchFirst { end: 10 }
    );
    assert_eq!(
        open_probed(Some(MIN_CHUNK_SIZE * 10)),
        OpenAction::FetchFirst {
            end: MIN_CHUNK_SIZE
        }
    );
}

fn ranged(length: u64, end: u64) -> HttpSource {
    HttpSource::new(true, Some(length), Some(end), RetryConfig::default())
}

#[test]
fn bytes_are_read_from_the_current_response() {
    let source = ranged(100, 100);
    let (source, action) = source.read(16);
    assert_eq!(action, ReadAction::Read);
    let (source, action) = source.next(ReadEvent::Bytes { count: 16 });
    assert_eq!(action, ReadAction::Return { count: 16 });
    assert_eq!(source.bytes_read(), 16);
    assert_eq!(source.bytes_total(), Some(100));
    let stats = source.get_download_stats();
    assert_eq!(stats.total_bytes(), 16);
}

#[test]
fn failed_reads_are_resumed_by_range() {
    let (source, action) = ranged(1000, 1000).read(16);
    assert_eq!(action, ReadAction::Read);
    let (mut source, mut action) = source.next(ReadEvent::Failed);
    if let ReadAction::Wait(backoff) = action {
        assert_eq!(backoff, Duration::from_secs(1));
        (source, action) = source.next(ReadEvent::Waited);
    }
    assert!(matches!(action, ReadAction::Fetch { start: 0, .. }), "{action:?}");
    let (source, action) = source.next(ReadEvent::Fetched {
        status: 206,
        total: Some(999),
    });
    assert_eq!(
        action,
        ReadAction::Fail(HttpError::LengthChanged {
            expected: 1000,
            found: 999
        })
    );
    drop(source);
}

#[test]
fn skipped_bytes_are_not_downloaded() {
    let source = ranged(10 * MIN_CHUNK_SIZE, MIN_CHUNK_SIZE);
    let source = source.skip(5 * MIN_CHUNK_SIZE).unwrap();
    let (source, action) = source.read(16);
    let ReadAction::Fetch { start, end } = action else {
        panic!("{action:?}");
    };
    assert_eq!(start, 5 * MIN_CHUNK_SIZE);
    assert!(end > start);
    let (source, action) = source.next(ReadEvent::Fetched {
        status: 206,
        total: Some(10 * MIN_CHUNK_SIZE),
    });
    assert_eq!(action, ReadAction::Read);
    let (source, _) = source.next(ReadEvent::Bytes { count: 16 });
    let stats = source.get_download_stats();
    assert_eq!(stats.bytes_read, MIN_CHUNK_SIZE + 16);
    assert_eq!(stats.bytes_skipped, 4 * MIN_CHUNK_SIZE);
}

#[test]
fn small_gaps_are_read_over() {
    let source = ranged(10 * MIN_CHUNK_SIZE, 10 * MIN_CHUNK_SIZE);
    let source = source.skip(100).unwrap();
    let (_, action) = source.read(16);
    assert_eq!(action, ReadAction::SkipBytes { count: 100 });
    let source = ranged(10 * MIN_CHUNK_SIZE, 10 * MIN_CHUNK_SIZE);
    let source = source.skip(2 * SKIP_SIZE).unwrap();
    let (_, action) = source.read(16);
    assert!(matches!(
        action,
        ReadAction::SkipBytes { .. } | ReadAction::Fetch { .. }
    ));
}

#[test]
fn a_failed_skip_stays_pending() {
    let source = HttpSource::new(false, None, None, RetryConfig::default());
    let source = source.skip(100).unwrap();
    let (source, action) = source.read(16);
    assert_eq!(action, ReadAction::SkipBytes { count: 100 });
    let (source, _) = source.next(ReadEvent::Bytes { count: 40 });
    let (source, action) = source.next(ReadEvent::Failed);
    assert_eq!(action, ReadAction::Fail(HttpError::ReadFailed));
    assert_eq!(source.current_skipped, 100);
    assert_eq!(source.get_download_stats().total_bytes(), 0);
    assert_eq!(source.bytes_read(), 100);
    // The next read goes on with the same response and moves the position once more.
    let (source, action) = source.read(16);
    assert_eq!(action, ReadAction::SkipBytes { count: 100 });
    assert_eq!(source.current_position, 200);
    let (source, action) = source.next(ReadEvent::Bytes { count: 100 });
    assert_eq!(action, ReadAction::Read);
    let (source, action) = source.next(ReadEvent::Bytes { count: 16 });
    assert_eq!(action, ReadAction::Return { count: 16 });
    assert_eq!(source.get_download_stats().total_bytes(), 116);
    assert_eq!(source.current_position, 216);
}

#[test]
fn positions_do_not_overflow() {
    let source = HttpSource::new(false, None, None, RetryConfig::default());
    let source = source.skip(u64::MAX).unwrap();
    assert_eq!(source.skip(1).unwrap_err(), HttpError::Overflow);
    let (source, _) = source.read(16);
    let (source, _) = source.next(ReadEvent::Failed);
    let (source, action) = source.read(16);
    assert_eq!(action, ReadAction::Fail(HttpError::Overflow));
    assert_eq!(source.current_position, u64::MAX);
}

#[test]
fn no_backoff_stays_none() {
    let config = RetryConfig {
        initial_backoff: Duration::from_secs(0),
        ..RetryConfig::default()
    };
    assert_eq!(compute_backoff(&config, 0), Duration::from_secs(0));
    assert_eq!(compute_backoff(&config, u32::MAX), Duration::from_secs(0));
    assert_eq!(
        compute_backoff(&RetryConfig::default(), u32::MAX),
        Duration::from_secs(30)
    );
}

#[test]
fn sources_without_ranges_cannot_be_resumed() {
    let source = HttpSource::new(false, None, None, RetryConfig::default());
    let (source, action) = source.read(16);
    assert_eq!(action, ReadAction::Read);
    let (_, action) = source.next(ReadEvent::Failed);
    assert!(matches!(action, ReadAction::Fail(_)), "{action:?}");
}

#[test]
fn unexpected_statuses_end_the_download() {
    let source = ranged(10 * MIN_CHUNK_SIZE, MIN_CHUNK_SIZE)
        .skip(5 * MIN_CHUNK_SIZE)
        .unwrap();
    let (source, _) = source.read(16);
    let (_, action) = source.next(ReadEvent::Fetched {
        status: 200,
        total: None,
    });
    assert_eq!(
        action,
        ReadAction::Fail(HttpError::UnexpectedStatus { status: 200 })
    );
}
