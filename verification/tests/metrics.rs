use krwlr::metrics::ErrorMetrics;
use krwlr::metrics::LogMetrics;
use krwlr::metrics::Metrics;
use krwlr::timer::Elapsed;
use krwlr::timer::TimeSum;
use krwlr::timer::Timer;

#[test]
fn new_log_metrics_are_all_zero() {
    let log = LogMetrics::new();
    assert_eq!(log.total_urls, 0);
    assert_eq!(log.same_domains, 0);
    assert_eq!(log.other_domains, 0);
    assert_eq!(log.total_html_files, 0);
    assert_eq!(log.compressed_bytes, 0);
    assert_eq!(log.uncompressed_bytes, 0);
    assert_eq!(log.downloaded_bytes, 0);
    assert_eq!(log.fetch_count, 0);
    assert_eq!(log.process_time, Elapsed { secs: 0, nanos: 0 });
    assert_eq!(log.download_time, TimeSum { secs: 0, nanos: 0 });
    assert_eq!(log.que_size_at_end, 0);
}

#[test]
fn new_metrics_hold_no_errors() {
    let metrics = Metrics::new();
    assert_eq!(metrics.log, LogMetrics::new());
    assert_eq!(metrics.error.len(), 0);
    assert!(metrics.error.messages().is_empty());
}

#[test]
fn new_error_metrics_are_empty() {
    let errors = ErrorMetrics::new();
    assert_eq!(errors.len(), 0);
    assert_eq!(errors.count("anything"), 0);
    assert_eq!(errors.count(""), 0);
    assert!(errors.messages().is_empty());
}

#[test]
fn errors_are_tallied_by_message() {
    let mut errors = ErrorMetrics::new();
    errors.record("timeout");
    errors.record("refused");
    errors.record("timeout");
    errors.record("timeout");
    assert_eq!(errors.count("timeout"), 3);
    assert_eq!(errors.count("refused"), 1);
    assert_eq!(errors.count("Timeout"), 0);
    assert_eq!(errors.count("time"), 0);
    assert_eq!(errors.len(), 2);
    assert_eq!(errors.messages(), &vec![String::from("timeout"), String::from("refused")]);
}

#[test]
fn empty_message_is_a_message() {
    let mut errors = ErrorMetrics::new();
    errors.record("");
    errors.record("");
    assert_eq!(errors.count(""), 2);
    assert_eq!(errors.len(), 1);
}

#[test]
fn answered_requests_are_counted_with_their_time() {
    let mut log = LogMetrics::new();
    log.record_response(Elapsed { secs: 1, nanos: 600_000_000 });
    log.record_response(Elapsed { secs: 2, nanos: 700_000_000 });
    assert_eq!(log.fetch_count, 2);
    assert_eq!(log.download_time, TimeSum { secs: 3, nanos: 1_300_000_000 });
    assert_eq!(log.total_html_files, 0);
    log.record_html();
    assert_eq!(log.total_html_files, 1);
    assert_eq!(log.fetch_count, 2);
}

#[test]
fn page_counts_add_up() {
    let mut log = LogMetrics::new();
    log.record_page(100, 5, 3);
    log.record_page(20, 2, 2);
    log.record_page(0, 0, 0);
    assert_eq!(log.downloaded_bytes, 120);
    assert_eq!(log.total_urls, 7);
    assert_eq!(log.same_domains, 5);
    assert_eq!(log.other_domains, 2);
    assert_eq!(log.total_urls, log.same_domains + log.other_domains);
}

#[test]
fn time_sum_adds_seconds_and_nanoseconds_apart() {
    let sum = TimeSum::zero();
    assert_eq!(sum, TimeSum { secs: 0, nanos: 0 });
    let sum = sum.plus(Elapsed { secs: u64::MAX, nanos: 999_999_999 });
    let sum = sum.plus(Elapsed { secs: u64::MAX, nanos: 999_999_999 });
    assert_eq!(sum.secs, 2 * (u64::MAX as u128));
    assert_eq!(sum.nanos, 1_999_999_998);
    assert_eq!(Elapsed::zero(), Elapsed { secs: 0, nanos: 0 });
}

#[test]
fn timer_measures_a_span() {
    let timer = Timer::new();
    let first = timer.elapsed();
    let second = timer.elapsed();
    assert!(first.nanos < 1_000_000_000);
    assert!(second.nanos < 1_000_000_000);
    assert!((second.secs, second.nanos) >= (first.secs, first.nanos));
    assert!(first.secs < 60);
}
