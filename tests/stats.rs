use crawler::{CrawlStats, Response, Settings, Stats, StatsReport};

fn read_response() -> Option<Response> {
    Some(Response { status: 200, headers: Vec::new(), body: Some(b"x".to_vec()) })
}

#[test]
fn stats_count_requests_responses_and_bodies() {
    let mut stats = Stats::new(5);
    stats.record_response(&None);
    stats.record_response(&Some(Response { status: 404, headers: Vec::new(), body: None }));
    stats.record_response(&read_response());
    assert_eq!(
        stats.report(65),
        StatsReport { n_requests: 3, n_responses: 2, n_read_responses: 1, elapsed: 60 }
    );
}

#[test]
fn report_waits_for_the_interval_then_starts_a_new_window() {
    let mut stats = CrawlStats::new(10_000, 1_000);
    stats.record_response(&read_response());
    assert_eq!(stats.maybe_report(10_999), None);
    let (window, overall) = stats.maybe_report(11_000).unwrap();
    assert_eq!(window, StatsReport { n_requests: 1, n_responses: 1, n_read_responses: 1, elapsed: 10_000 });
    assert_eq!(overall, window);
    stats.record_response(&None);
    assert_eq!(stats.maybe_report(20_000), None);
    let (window, overall) = stats.maybe_report(21_000).unwrap();
    assert_eq!(window, StatsReport { n_requests: 1, n_responses: 0, n_read_responses: 0, elapsed: 10_000 });
    assert_eq!(overall, StatsReport { n_requests: 2, n_responses: 1, n_read_responses: 1, elapsed: 20_000 });
}

#[test]
fn clock_reading_earlier_counts_as_no_time() {
    let mut stats = CrawlStats::new(0, 50);
    let (window, _) = stats.maybe_report(10).unwrap();
    assert_eq!(window.elapsed, 0);
}

#[test]
fn default_settings() {
    let settings = Settings::default();
    assert_eq!(settings.concurrent_requests, 1024);
    assert_eq!(settings.concurrent_requests_per_domain, 4);
    assert_eq!(settings.out_path.as_deref(), Some("out.jl"));
    assert_eq!(settings.urls_path.as_deref(), Some("urls.csv"));
    assert_eq!(settings.timeout, 120);
    assert!(settings.user_agent.starts_with("Mozilla/5.0 (X11; Linux i686)"));
}
