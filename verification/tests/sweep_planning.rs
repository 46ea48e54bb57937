use oculus::client::{
    bump_backoff, fetch_step, user_stats_step, FetchFailure, FetchStep, HttpOutcome,
    UserStatsStep,
};
use oculus::cursor::DataSyncer;
use oculus::embed::{
    embed_action, order_results, plan_windows, EmbedAction, InitEmbedder,
};
use oculus::errors::{is_no_work, no_work_error, ApiError, JobError};
use oculus::fetch::{effective_total_pages, pages_to_fetch, DataFetcher, DataType};
use oculus::jobs::{
    continuous_action, get_embedding_concurrency, get_fetch_concurrency, retry_continues,
    retry_delay_ms, ContinuousAction, TraceJob, ZenithJob,
};
use oculus::models::{Config, HackatimeRateLimitError, PaginationInfo, RawProject};
use oculus::queries::{extract_pagination, validate_pagination};
use oculus::timeparse::parse_datetime;

fn response(status: u16, retry_after: Option<u64>, blocked: bool) -> HttpOutcome {
    HttpOutcome::Response { status, retry_after, body_has_block_sentinel: blocked }
}

fn config() -> Config {
    Config {
        database_url: "postgres://localhost/mirror".to_string(),
        journey_session_cookie: "session-cookie-value".to_string(),
        max_db_connections: 50,
        api_port: 8080,
        first_sync_mode: false,
        auto_sync_on_startup: false,
        force_embedding_regen: None,
        skip_projects_sync: false,
        skip_devlogs_sync: false,
        skip_comments_sync: false,
        skip_leaderboard_sync: false,
        slack_token: String::new(),
        embedding_cache_size: 1000,
        embedding_cache_ttl_seconds: 3600,
        embedding_max_concurrent_requests: 16,
    }
}

#[test]
fn retry_after_is_honored_without_counting_the_attempt() {
    // a 429 carrying Retry-After: 2 waits those seconds and retries
    let step = fetch_step(1, &response(429, Some(2), false));
    assert_eq!(step, FetchStep::HonorRetryAfter(2));
    // even on the last attempt, the server-given wait still retries
    let step = fetch_step(5, &response(200, Some(1), false));
    assert_eq!(step, FetchStep::HonorRetryAfter(1));
}

#[test]
fn blocked_and_expired_sessions_fail_fast() {
    assert_eq!(
        fetch_step(1, &response(403, None, true)),
        FetchStep::Fail(FetchFailure::Blocked)
    );
    assert_eq!(
        fetch_step(1, &response(403, None, false)),
        FetchStep::Fail(FetchFailure::AuthExpired)
    );
}

#[test]
fn server_errors_retry_until_attempts_run_out() {
    assert_eq!(fetch_step(1, &response(500, None, false)), FetchStep::RetryAfterBackoff);
    assert_eq!(fetch_step(4, &response(429, None, false)), FetchStep::RetryAfterBackoff);
    assert_eq!(fetch_step(5, &response(503, None, false)), FetchStep::Fail(FetchFailure::Http(503)));
    assert_eq!(fetch_step(1, &response(404, None, false)), FetchStep::Fail(FetchFailure::Http(404)));
    assert_eq!(fetch_step(2, &response(200, None, false)), FetchStep::Deliver);
}

#[test]
fn transport_errors_retry_only_when_worth_it() {
    let timeout = HttpOutcome::TransportError { timeout_or_connect: true };
    let other = HttpOutcome::TransportError { timeout_or_connect: false };
    assert_eq!(fetch_step(1, &timeout), FetchStep::RetryAfterBackoff);
    assert_eq!(fetch_step(5, &timeout), FetchStep::Fail(FetchFailure::Transport));
    assert_eq!(fetch_step(1, &other), FetchStep::Fail(FetchFailure::Transport));
}

#[test]
fn backoff_doubles_up_to_thirty_seconds() {
    assert_eq!(bump_backoff(1000), 2000);
    assert_eq!(bump_backoff(8000), 16000);
    assert_eq!(bump_backoff(16000), 30000);
    assert_eq!(bump_backoff(30000), 30000);
}

#[test]
fn user_stats_answers_are_read_case_by_case() {
    assert_eq!(user_stats_step(404, None), UserStatsStep::Absent);
    let body = HackatimeRateLimitError { message: "slow down".to_string(), retry_after: 30 };
    assert_eq!(
        user_stats_step(429, Some(&body)),
        UserStatsStep::RateLimited { retry_after: 30, message: "slow down".to_string() }
    );
    assert_eq!(user_stats_step(429, None), UserStatsStep::Failed(429));
    assert_eq!(user_stats_step(500, None), UserStatsStep::Failed(500));
    assert_eq!(user_stats_step(200, None), UserStatsStep::Deliver);
}

#[test]
fn cursor_resumes_one_past_the_watermark() {
    assert_eq!(DataSyncer::calculate_start_page(None), 1);
    assert_eq!(DataSyncer::calculate_start_page(Some(4)), 5);
    assert!(DataSyncer::should_store_cursor(3));
    assert!(!DataSyncer::should_store_cursor(0));
    assert_eq!(DataSyncer::sweep_last_page(3, true, 0), 2);
    assert_eq!(DataSyncer::sweep_last_page(3, false, 7), 7);
    assert_eq!(DataSyncer::sweep_last_page(3, false, 2), 3);
    assert_eq!(DataSyncer::advance_drained(4, 6), 6);
    assert_eq!(DataSyncer::advance_drained(6, 4), 6);
}

#[test]
fn incremental_sweep_filters_and_advances() {
    // a cursor at page 2 resumes at 3; pages 3 and 4 hold eleven new
    // projects; none are mirrored yet, so all survive the filter
    let start = DataSyncer::calculate_start_page(Some(2));
    assert_eq!(start, 3);
    let mut incoming = Vec::new();
    for id in 100..111i64 {
        incoming.push(RawProject {
            id,
            title: format!("p{id}"),
            description: None,
            readme_link: None,
            slack_id: "U1".to_string(),
            created_at: "2024-01-01T00:00:00Z".to_string(),
            updated_at: "2024-01-01T00:00:00Z".to_string(),
        });
    }
    let existing: Vec<i64> = vec![1, 2, 3];
    let fresh = DataFetcher::filter_new_projects(incoming, &existing);
    assert_eq!(fresh.len(), 11);
    let last = DataSyncer::sweep_last_page(start, false, 4);
    assert_eq!(last, 4);
}

#[test]
fn existing_ids_are_dropped_in_order() {
    let mk = |id: i64| RawProject {
        id,
        title: format!("p{id}"),
        description: None,
        readme_link: None,
        slack_id: "U1".to_string(),
        created_at: String::new(),
        updated_at: String::new(),
    };
    let fresh = DataFetcher::filter_new_projects(vec![mk(1), mk(5), mk(2), mk(7)], &vec![1, 2]);
    let ids: Vec<i64> = fresh.iter().map(|p| p.id).collect();
    assert_eq!(ids, vec![5, 7]);
    assert!(DataFetcher::contains_id(&vec![1, 2], 2));
    assert!(!DataFetcher::contains_id(&vec![1, 2], 3));
}

#[test]
fn stream_shapes_are_fixed() {
    assert_eq!(DataType::Projects.capacity_hint(), 100);
    assert_eq!(DataType::Comments.capacity_hint(), 200);
    assert_eq!(DataType::Devlogs.capacity_hint(), 500);
    assert_eq!(DataType::Projects.progress_name(), "Fetching new projects");
    assert_eq!(DataType::Comments.progress_name(), "Fetching new comments");
    assert_eq!(DataType::Devlogs.progress_name(), "Fetching new devlogs");
}

#[test]
fn page_plan_runs_from_after_start_to_total() {
    assert_eq!(pages_to_fetch(2, 4), vec![3, 4]);
    assert_eq!(pages_to_fetch(4, 4), Vec::<i32>::new());
    assert_eq!(pages_to_fetch(5, 4), Vec::<i32>::new());
    let info = PaginationInfo { pages: Some(9), count: None, page: None, items: None };
    assert_eq!(effective_total_pages(&Some(info), 3), 9);
    let info = PaginationInfo { pages: None, count: None, page: None, items: None };
    assert_eq!(effective_total_pages(&Some(info), 3), 3);
    assert_eq!(effective_total_pages(&None, 3), 3);
}

#[test]
fn scheduler_reacts_to_job_outcomes() {
    assert_eq!(continuous_action(&Ok(())), ContinuousAction::RunAgain);
    assert_eq!(continuous_action(&Err(no_work_error())), ContinuousAction::SleepQuiet);
    assert_eq!(
        continuous_action(&Err(JobError::Database("down".to_string()))),
        ContinuousAction::SleepError
    );
    assert!(is_no_work(&no_work_error()));
    assert!(!is_no_work(&JobError::Other("busy".to_string())));
}

#[test]
fn retry_wrapper_spacing_is_linear() {
    assert_eq!(retry_delay_ms(1), 1000);
    assert_eq!(retry_delay_ms(2), 2000);
    assert!(retry_continues(1));
    assert!(retry_continues(2));
    assert!(!retry_continues(3));
}

#[test]
fn concurrency_budgets_follow_the_machine() {
    assert_eq!(get_embedding_concurrency(4), 8);
    assert_eq!(get_fetch_concurrency(4), 16);
    assert_eq!(get_fetch_concurrency(10), 20);
    assert_eq!(InitEmbedder::get_embed_batch_size(None), 32);
    assert_eq!(InitEmbedder::get_embed_batch_size(Some(64)), 64);
    assert_eq!(InitEmbedder::get_db_concurrency(None, 4), 4);
    assert_eq!(InitEmbedder::get_db_concurrency(None, 32), 8);
    assert_eq!(InitEmbedder::get_db_concurrency(Some(2), 32), 2);
}

#[test]
fn job_handles_keep_their_configuration() {
    let c = config();
    let trace = TraceJob::new(c.clone());
    let zenith = ZenithJob::new(c.clone());
    assert_eq!(trace.config, c);
    assert_eq!(zenith.config, c);
}

#[test]
fn short_texts_embed_as_the_zero_vector() {
    assert_eq!(embed_action(true, 100), EmbedAction::ZeroVector);
    assert_eq!(embed_action(false, 7), EmbedAction::ZeroVector);
    assert_eq!(embed_action(false, 8), EmbedAction::RunModel);
}

#[test]
fn long_inputs_window_with_a_448_stride() {
    // 1100 tokens cut into windows at 0, 448 and 896
    let ids: Vec<u32> = (0..1100u32).collect();
    let mask: Vec<u32> = vec![1; 1100];
    let windows = plan_windows(&ids, &mask);
    assert_eq!(windows.len(), 3);
    for w in &windows {
        assert_eq!(w.input_ids.len(), 512);
        assert_eq!(w.attention_mask.len(), 512);
    }
    assert_eq!(windows[0].input_ids[0], 0);
    assert_eq!(windows[1].input_ids[0], 448);
    assert_eq!(windows[2].input_ids[0], 896);
    // the last window holds tokens 896..1100 and zero padding after
    assert_eq!(windows[2].input_ids[203], 1099);
    assert_eq!(windows[2].input_ids[204], 0);
    assert_eq!(windows[2].attention_mask[203], 1);
    assert_eq!(windows[2].attention_mask[204], 0);
}

#[test]
fn short_inputs_fit_one_padded_window() {
    let ids: Vec<u32> = (0..10u32).collect();
    let mask: Vec<u32> = vec![1; 10];
    let windows = plan_windows(&ids, &mask);
    assert_eq!(windows.len(), 1);
    assert_eq!(windows[0].input_ids[9], 9);
    assert_eq!(windows[0].input_ids[10], 0);
    assert_eq!(windows[0].attention_mask[10], 0);
}

#[test]
fn batch_results_return_in_input_order() {
    let shuffled = vec![(2usize, "c"), (0usize, "a"), (1usize, "b")];
    assert_eq!(order_results(shuffled).unwrap(), vec!["a", "b", "c"]);
    let missing = vec![(0usize, "a"), (2usize, "c")];
    assert!(order_results(missing).is_err());
}

#[test]
fn listing_pages_compute_offsets_and_bounds() {
    let p = extract_pagination(Some(3));
    assert_eq!((p.page, p.per_page, p.offset), (3, 20, 40));
    let p = extract_pagination(None);
    assert_eq!((p.page, p.per_page, p.offset), (1, 20, 0));
    assert!(validate_pagination(1, 0, 20));
    assert!(validate_pagination(3, 41, 20));
    assert!(!validate_pagination(4, 41, 20));
    assert!(!validate_pagination(0, 41, 20));
}

#[test]
fn api_errors_map_to_stable_codes() {
    let e = ApiError::Database("down".to_string());
    assert_eq!(e.status_code(), 500);
    assert_eq!(e.error_code(), "DB_ERROR");
    let e = ApiError::RateLimit { retry_after: 9, message: "slow".to_string() };
    assert_eq!(e.status_code(), 429);
    assert_eq!(e.error_code(), "RATE_LIMITED");
    let e = ApiError::NotFound { resource: "project".to_string(), id: "1".to_string() };
    assert_eq!(e.status_code(), 404);
    assert_eq!(e.error_code(), "NOT_FOUND");
    let e = ApiError::Validation { field: "date".to_string(), message: "bad".to_string() };
    assert_eq!(e.status_code(), 400);
    assert_eq!(e.error_code(), "VALIDATION_ERROR");
}

#[test]
fn timestamps_parse_to_epoch_milliseconds() {
    assert_eq!(parse_datetime("2024-01-01T00:00:00Z"), Ok(1704067200000));
    assert_eq!(parse_datetime("2024-01-01T01:00:00+01:00"), Ok(1704067200000));
    assert!(matches!(parse_datetime("yesterday"), Err(JobError::Database(_))));
}
