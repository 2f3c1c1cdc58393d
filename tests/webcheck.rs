use webcheck::{
    check_guess, is_even, most_frequent_in, most_frequent_word, round_jobs, summarize, sum_with_step, truncate,
    worker_action, AttemptOutcome, Config, Job, ProbeState, ProbeStep, RoundCollector, Scheduler, SchedulerAction,
    Timestamp, WebsiteStatus, WorkerAction, RETRY_DELAY_MS, TICK_MS,
};

fn result(url: &str, status: Result<u16, String>, elapsed_ms: u64) -> WebsiteStatus {
    WebsiteStatus { url: url.to_string(), status, elapsed_ms, observed_at: Timestamp::new(1_700_000_000, 0) }
}

fn urls(list: &[&str]) -> Vec<String> {
    list.iter().map(|u| u.to_string()).collect()
}

#[test]
fn test_config_defaults() {
    let c = Config::default();
    assert_eq!(c.workers, 50);
    assert_eq!(c.timeout_secs, 5);
    assert_eq!(c.retries, 1);
    assert!(c.period_secs.is_none());
}

#[test]
fn zero_workers_become_one() {
    let c = Config { workers: 0, timeout_secs: 2, retries: 0, period_secs: None }.normalized();
    assert_eq!(c.workers, 1);
    assert_eq!(c.timeout_secs, 2);
    let list = urls(&["http://a", "http://b", "http://c"]);
    let jobs = round_jobs(&list, c.workers);
    assert_eq!(jobs.len(), 4);
    let mut collector = RoundCollector::new(&list);
    for job in jobs {
        match worker_action(job) {
            WorkerAction::Probe(u) => {
                assert!(collector.deliver(result(&u, Ok(200), 5)));
            }
            WorkerAction::Terminate => {}
        }
    }
    assert!(collector.is_complete());
    assert_eq!(collector.into_results().len(), 3);
}

#[test]
fn nonzero_workers_kept() {
    let c = Config { workers: 7, timeout_secs: 5, retries: 1, period_secs: Some(3) }.normalized();
    assert_eq!(c.workers, 7);
    assert_eq!(c.period_secs, Some(3));
}

#[test]
fn round_jobs_checks_then_quits() {
    let list = urls(&["http://a", "http://b"]);
    let jobs = round_jobs(&list, 3);
    assert_eq!(jobs.len(), 5);
    assert!(matches!(&jobs[0], Job::Check(u) if u == "http://a"));
    assert!(matches!(&jobs[1], Job::Check(u) if u == "http://b"));
    assert!(jobs[2..].iter().all(|j| matches!(j, Job::Quit)));
    assert_eq!(worker_action(Job::Quit), WorkerAction::Terminate);
}

#[test]
fn empty_round_is_complete_at_once() {
    let list: Vec<String> = Vec::new();
    let collector = RoundCollector::new(&list);
    assert!(collector.is_complete());
    let s = summarize(&collector.into_results());
    assert_eq!(s.total, 0);
    assert_eq!(s.uptime_fraction(), (0, 1));
    assert_eq!(s.average_success_millis, 0);
}

#[test]
fn collector_takes_one_result_per_url_in_any_order() {
    let list = urls(&["http://a", "http://b", "http://a"]);
    let mut c = RoundCollector::new(&list);
    assert!(c.deliver(result("http://a", Ok(200), 1)));
    assert!(!c.deliver(result("http://z", Ok(200), 1)));
    assert!(c.deliver(result("http://a", Err("refused".to_string()), 2)));
    assert!(!c.deliver(result("http://a", Ok(200), 3)));
    assert!(!c.is_complete());
    assert!(c.deliver(result("http://b", Ok(301), 4)));
    assert!(c.is_complete());
    let rs = c.into_results();
    let mut got: Vec<String> = rs.iter().map(|r| r.url.clone()).collect();
    got.sort();
    assert_eq!(got, urls(&["http://a", "http://a", "http://b"]));
}

#[test]
fn unreachable_endpoint_attempts_retries_plus_one() {
    let mut p = ProbeState::new(3);
    let mut attempts = 0;
    let message = loop {
        attempts += 1;
        match p.record(AttemptOutcome::TransportError(format!("refused {}", attempts))) {
            ProbeStep::RetryAfter(ms) => assert_eq!(ms, RETRY_DELAY_MS),
            ProbeStep::GiveUp(ms, m) => {
                assert_eq!(ms, 150);
                break m;
            }
            ProbeStep::Finished(_) => panic!("no response was reported"),
        }
    };
    assert_eq!(attempts, 4);
    assert_eq!(message, "refused 4");
    assert!(p.done);
    assert_eq!(p.waited_ms(), 600);
}

#[test]
fn unreachable_endpoint_without_retries() {
    let mut p = ProbeState::new(0);
    assert!(matches!(p.record(AttemptOutcome::TransportError("dns".to_string())), ProbeStep::GiveUp(150, m) if m == "dns"));
    assert_eq!(p.attempts, 1);
}

#[test]
fn immediate_response_finishes_first_attempt() {
    let mut p = ProbeState::new(5);
    assert!(matches!(p.record(AttemptOutcome::Response(200)), ProbeStep::Finished(200)));
    assert!(p.done);
    assert_eq!(p.attempts, 1);
    assert_eq!(p.waited_ms(), 0);
}

#[test]
fn error_status_is_a_response() {
    let mut p = ProbeState::new(2);
    assert!(matches!(p.record(AttemptOutcome::Response(404)), ProbeStep::Finished(404)));
    let r = WebsiteStatus::from_step("http://x".to_string(), ProbeStep::Finished(404), 9, Timestamp::new(0, 5)).unwrap();
    assert_eq!(r.status, Ok(404));
    assert_eq!(r.elapsed_ms, 9);
}

#[test]
fn retried_then_successful_waits_each_retry() {
    let mut p = ProbeState::new(2);
    assert!(matches!(p.record(AttemptOutcome::TransportError("timeout".to_string())), ProbeStep::RetryAfter(150)));
    assert!(matches!(p.record(AttemptOutcome::TransportError("timeout".to_string())), ProbeStep::RetryAfter(150)));
    assert!(matches!(p.record(AttemptOutcome::Response(204)), ProbeStep::Finished(204)));
    assert_eq!(p.attempts, 3);
    assert_eq!(p.waited_ms(), 2 * 150);
}

#[test]
fn from_step_keeps_last_message() {
    let t = Timestamp::new(10, 20);
    let r = WebsiteStatus::from_step("u".to_string(), ProbeStep::GiveUp(150, "reset".to_string()), 450, t).unwrap();
    assert_eq!(r.status, Err("reset".to_string()));
    assert_eq!(r.observed_at.secs, 10);
    assert_eq!(r.observed_at.nanos, 20);
    assert!(WebsiteStatus::from_step("u".to_string(), ProbeStep::RetryAfter(150), 1, t).is_none());
}

#[test]
fn uptime_full_when_all_up() {
    let rs = vec![result("a", Ok(200), 10), result("b", Ok(302), 30)];
    let s = summarize(&rs);
    assert_eq!(s.success_count, 2);
    assert_eq!(s.uptime_fraction(), (200, 2));
    assert_eq!(s.average_success_millis, 20);
}

#[test]
fn uptime_zero_when_none_up() {
    let rs = vec![result("a", Ok(500), 10), result("b", Err("refused".to_string()), 30)];
    let s = summarize(&rs);
    assert_eq!(s.success_count, 0);
    assert_eq!(s.uptime_fraction(), (0, 2));
    assert_eq!(s.average_success_millis, 0);
    assert_eq!(s.success_millis, 0);
}

#[test]
fn uptime_mixed_is_exact_fraction() {
    let rs = vec![result("a", Ok(200), 10), result("b", Ok(404), 30), result("c", Ok(201), 21)];
    let s = summarize(&rs);
    assert_eq!(s.total, 3);
    assert_eq!(s.success_count, 2);
    assert_eq!(s.uptime_fraction(), (200, 3));
    assert_eq!(s.success_millis, 31);
    assert_eq!(s.average_success_millis, 15);
}

#[test]
fn average_excludes_failures_and_error_codes() {
    let rs = vec![
        result("a", Ok(200), 100),
        result("b", Err("timeout".to_string()), 5000),
        result("c", Ok(400), 7),
        result("d", Ok(399), 300),
    ];
    let s = summarize(&rs);
    assert_eq!(s.success_count, 2);
    assert_eq!(s.average_success_millis, 200);
}

#[test]
fn two_urls_one_up_one_unreachable() {
    let list = urls(&["http://a", "http://b"]);
    let mut c = RoundCollector::new(&list);
    assert!(c.deliver(result("http://b", Err("connection refused".to_string()), 150)));
    assert!(c.deliver(result("http://a", Ok(200), 42)));
    let rs = c.into_results();
    let s = summarize(&rs);
    assert_eq!(s.total, 2);
    assert_eq!(s.success_count, 1);
    assert_eq!(s.uptime_fraction(), (100, 2));
    assert_eq!(s.average_success_millis, 42);
}

#[test]
fn stop_flag_ends_periodic_schedule() {
    let mut s = Scheduler::new(Some(2));
    assert_eq!(s.step(false), SchedulerAction::RunRound);
    assert_eq!(s.step(false), SchedulerAction::Sleep(TICK_MS));
    assert_eq!(s.step(true), SchedulerAction::Exit);
    assert!(s.finished);
}

#[test]
fn periodic_schedule_sleeps_period_between_rounds() {
    let mut s = Scheduler::new(Some(2));
    assert_eq!(s.step(false), SchedulerAction::RunRound);
    assert_eq!(s.step(false), SchedulerAction::Sleep(1000));
    assert_eq!(s.step(false), SchedulerAction::Sleep(1000));
    assert_eq!(s.step(false), SchedulerAction::RunRound);
}

#[test]
fn single_round_without_period() {
    let mut s = Scheduler::new(None);
    assert_eq!(s.step(false), SchedulerAction::RunRound);
    assert_eq!(s.step(false), SchedulerAction::Exit);
}

#[test]
fn stop_before_first_round() {
    let mut s = Scheduler::new(Some(5));
    assert_eq!(s.step(true), SchedulerAction::Exit);
}

#[test]
fn truncate_short_and_long() {
    assert_eq!(truncate("abc", 5), "abc");
    assert_eq!(truncate("abcdef", 4), "abc\u{2026}");
    assert_eq!(truncate("abcdef", 0), "\u{2026}");
    assert_eq!(truncate("ab", 0), "\u{2026}");
    assert_eq!(truncate("abc", 3), "abc");
}

#[test]
fn truncate_counts_bytes() {
    assert_eq!(truncate("\u{e9}\u{e9}", 3), "\u{e9}\u{2026}");
    assert_eq!(truncate("\u{e9}\u{e9}", 4), "\u{e9}\u{e9}");
    assert_eq!(truncate("a\u{e9}b", 2), "a\u{2026}");
}

#[test]
fn sums_with_steps() {
    let mut t = 0;
    sum_with_step(&mut t, 0, 100, 1);
    assert_eq!(t, 5050);
    t = 0;
    sum_with_step(&mut t, 0, 10, 2);
    assert_eq!(t, 30);
    t = 0;
    sum_with_step(&mut t, 5, 15, 3);
    assert_eq!(t, 38);
    t = 7;
    sum_with_step(&mut t, 3, 2, 1);
    assert_eq!(t, 7);
    sum_with_step(&mut t, 3, 2, 0);
    assert_eq!(t, 7);
    sum_with_step(&mut t, 3, 2, -5);
    assert_eq!(t, 7);
}

#[test]
fn even_and_guess() {
    assert!(is_even(12));
    assert!(!is_even(7));
    assert!(is_even(-4));
    assert_eq!(check_guess(18, 18), 0);
    assert_eq!(check_guess(20, 18), 1);
    assert_eq!(check_guess(10, 18), -1);
}

#[test]
fn most_frequent_word_of_text() {
    let (w, c) = most_frequent_word("the quick brown fox jumps over the lazy dog the quick brown fox");
    assert_eq!(w, "the");
    assert_eq!(c, 3);
    let (w, c) = most_frequent_word("  b a\ta b ");
    assert_eq!(w, "b");
    assert_eq!(c, 2);
    let (w, c) = most_frequent_word("   ");
    assert_eq!(w, "");
    assert_eq!(c, 0);
    let (w, c) = most_frequent_in(&urls(&["x", "y", "y"]));
    assert_eq!(w, "y");
    assert_eq!(c, 2);
}

#[test]
fn summary_ignores_arrival_order() {
    let a = summarize(&vec![result("a", Ok(200), 10), result("b", Err("x".to_string()), 3), result("c", Ok(204), 31)]);
    let b = summarize(&vec![result("c", Ok(204), 31), result("a", Ok(200), 10), result("b", Err("x".to_string()), 3)]);
    assert_eq!(a.success_count, b.success_count);
    assert_eq!(a.success_millis, b.success_millis);
    assert_eq!(a.average_success_millis, 20);
    assert_eq!(b.average_success_millis, 20);
}
