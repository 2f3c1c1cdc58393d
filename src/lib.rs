//! A concurrent website health checker: probe policy, round planning,
//! result aggregation and the periodic scheduler, each as verified logic.
//! Threads, the network and the clock are driven by the application around it.

mod basics;
mod config;
mod probe;
mod round;
mod schedule;
mod summary;

pub use basics::{
    check_guess, is_even, is_most_frequent, most_frequent_in, most_frequent_word, occurrences, prefix_total,
    is_white_space, sum_with_step, term_count, truncate, truncated, whitespace_words,
};
pub use config::Config;
pub use probe::{
    fresh, lemma_immediate_response, lemma_unreachable_endpoint, lemma_wait_before_success, replay, AttemptOutcome,
    ProbeState, ProbeStep, RETRY_DELAY_MS,
};
pub use round::{
    lemma_complete_round, result_urls, round_jobs, url_views, worker_action, Job, RoundCollector, Timestamp,
    WebsiteStatus, WorkerAction,
};
pub use schedule::{
    lemma_period_between_rounds, lemma_single_round, lemma_stop_ends_schedule, Scheduler, SchedulerAction, TICK_MS,
};
pub use summary::{
    lemma_non_qualifying_ignored, lemma_order_irrelevant, lemma_uptime_extremes, qualifies, success_count_of,
    success_millis_of, summarize, summary_of, RoundSummary,
};
