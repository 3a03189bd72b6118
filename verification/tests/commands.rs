use helper_backend::config::valid_env_key;
use helper_backend::error::BackendError;
use helper_backend::ipc::{
    batch_audit_entry, candidate_audit_entry, check_history_range, check_inactive_item_id,
    history_filters, history_source, inactive_mark_result, is_retryable_publish_error_code,
    normalize_history_string_filter, normalize_month_key, notion_sync_config_snapshot,
    notion_sync_job_outcome, paged, parse_sync_mode, per_item_latency, probe_candidates,
    probe_step, publish_result, queue_title, resolve_notion_sync_limit, sanitize_limit,
    sanitize_sleep_ms, source_item_not_found, ApiError, ApiResponse, BatchFailure, HistorySource,
    ProbeOutcome, PublishHistoryFilters, SyncModeKind, SyncRecordState,
};
use helper_backend::app_core::{DateRange, PageReq};
use helper_backend::sync_notion::service::SyncRunSummary;

fn summary(attempted: u32, succeeded: u32, failed: u32) -> SyncRunSummary {
    SyncRunSummary {
        scanned: attempted,
        attempted,
        succeeded,
        failed,
        requeued: 0,
        dead_lettered: failed,
    }
}

#[test]
fn valid_env_key_rejects_invalid_chars() {
    assert!(valid_env_key("HELPER_DB_PATH"));
    assert!(!valid_env_key("helper_db_path"));
    assert!(!valid_env_key("A-B"));
}

#[test]
fn sanitize_limit_clamps_range() {
    assert_eq!(sanitize_limit(0), 1);
    assert_eq!(sanitize_limit(10), 10);
    assert_eq!(sanitize_limit(999), 200);
}

#[test]
fn sanitize_sleep_ms_clamps_range() {
    assert_eq!(sanitize_sleep_ms(-1), 0);
    assert_eq!(sanitize_sleep_ms(200), 200);
    assert_eq!(sanitize_sleep_ms(20_000), 5_000);
}

#[test]
fn record_notion_sync_job_run_marks_partial() {
    let s = SyncRunSummary {
        scanned: 2,
        attempted: 2,
        succeeded: 1,
        failed: 1,
        requeued: 0,
        dead_lettered: 1,
    };
    let out = notion_sync_job_outcome(Some(&s), None);
    assert_eq!(out.status, "partial");
    assert_eq!(out.success_count, 1);
    assert_eq!(out.fail_count, 1);
}

#[test]
fn record_notion_sync_job_run_marks_failed_on_error() {
    let err = BackendError::Internal("boom".to_string());
    let out = notion_sync_job_outcome(None, Some(&err));
    assert_eq!(out.status, "failed");
    assert_eq!(out.fail_count, 1);
    assert_eq!(out.error_code.as_deref(), Some("INT-9000"));
}

#[test]
fn notion_sync_config_snapshot_reads_env_priority() {
    let snapshot = notion_sync_config_snapshot(
        "page_tree".to_string(),
        "UTC".to_string(),
        1_767_573_000,
        7,
        false,
        true,
        true,
        true,
    )
    .expect("config snapshot");
    assert_eq!(snapshot.sync_mode, "page_tree");
    assert_eq!(snapshot.timezone, "UTC");
    assert_eq!(snapshot.category_growth_limit, 7);
    assert!(snapshot.notion_token_configured);
    assert!(snapshot.notion_database_id_configured);
    assert!(snapshot.notion_root_page_id_configured);
}

#[test]
fn notion_sync_config_snapshot_rejects_invalid_timezone() {
    let err = notion_sync_config_snapshot(
        "page_tree".to_string(),
        "Mars/Olympus".to_string(),
        1_767_573_000,
        32,
        false,
        false,
        false,
        false,
    )
    .expect_err("invalid tz");
    assert!(err.message().contains("invalid timezone"));
}

#[test]
fn notion_sync_config_snapshot_fixed_first_level_forces_zero_growth_limit() {
    let snapshot = notion_sync_config_snapshot(
        "page_tree".to_string(),
        "Asia/Shanghai".to_string(),
        1_767_573_000,
        99,
        true,
        false,
        false,
        false,
    )
    .expect("config snapshot");
    assert_eq!(snapshot.category_growth_limit, 0);
}

#[test]
fn config_snapshot_rejects_negative_growth_limit() {
    let err = notion_sync_config_snapshot(
        "database".to_string(),
        "UTC".to_string(),
        1_767_573_000,
        -1,
        false,
        true,
        true,
        false,
    )
    .expect_err("negative limit");
    assert_eq!(
        err.message(),
        "validation failed: NOTION_TREE_CATEGORY_GROWTH_LIMIT must be >= 0"
    );
}

#[test]
fn sync_limit_prefers_request_then_config() {
    assert_eq!(resolve_notion_sync_limit(Some(30), 80), 30);
    assert_eq!(resolve_notion_sync_limit(None, 80), 80);
    assert_eq!(resolve_notion_sync_limit(None, -5), 1);
    assert_eq!(resolve_notion_sync_limit(None, 5000), 200);
    assert_eq!(resolve_notion_sync_limit(Some(0), 50), 1);
}

#[test]
fn month_key_validation() {
    let fallback = "2026-03".to_string();
    assert_eq!(normalize_month_key(None, fallback.clone()).unwrap(), "2026-03");
    assert_eq!(normalize_month_key(Some("   ".to_string()), fallback.clone()).unwrap(), "2026-03");
    assert_eq!(normalize_month_key(Some(" 2025-11 ".to_string()), fallback.clone()).unwrap(), "2025-11");
    let err = normalize_month_key(Some("2025/11".to_string()), fallback.clone()).unwrap_err();
    assert_eq!(err.message(), "validation failed: month must be in YYYY-MM format");
    assert!(normalize_month_key(Some("2025-1".to_string()), fallback).is_err());
}

#[test]
fn history_filters_trim_and_map_retryable() {
    assert_eq!(normalize_history_string_filter(Some("  failed ".to_string())).as_deref(), Some("failed"));
    assert_eq!(normalize_history_string_filter(Some("   ".to_string())), None);
    let (state, mode, retry) = history_filters(PublishHistoryFilters {
        state: Some(" success ".to_string()),
        sync_mode: Some("".to_string()),
        retryable: Some(true),
    });
    assert_eq!(state.as_deref(), Some("success"));
    assert_eq!(mode, None);
    assert_eq!(retry, Some(1));
    let defaults = PublishHistoryFilters::default();
    assert!(defaults.state.is_none() && defaults.sync_mode.is_none() && defaults.retryable.is_none());
}

#[test]
fn history_source_falls_back_to_job_runs() {
    let none = PublishHistoryFilters::default();
    assert_eq!(history_source(3, &none), HistorySource::Audit);
    assert_eq!(history_source(0, &none), HistorySource::JobRuns);
    let with_mode = PublishHistoryFilters {
        state: None,
        sync_mode: Some("page_tree".to_string()),
        retryable: None,
    };
    assert_eq!(history_source(0, &with_mode), HistorySource::Empty);
    assert!(check_history_range(&DateRange { from: " ".to_string(), to: "2026".to_string() }).is_err());
    assert!(check_history_range(&DateRange { from: "a".to_string(), to: "b".to_string() }).is_ok());
}

#[test]
fn a_blank_mode_filter_is_no_filter() {
    let blank = PublishHistoryFilters { state: None, sync_mode: Some(" \t ".to_string()), retryable: None };
    assert_eq!(history_source(0, &blank), HistorySource::JobRuns);
    assert_eq!(history_source(2, &blank), HistorySource::Audit);
    let retry_only = PublishHistoryFilters { state: None, sync_mode: Some("  ".to_string()), retryable: Some(false) };
    assert_eq!(history_source(0, &retry_only), HistorySource::Empty);
    let (_, mode, _) = history_filters(blank);
    assert_eq!(mode, None);
}

#[test]
fn retryable_publish_codes() {
    assert!(is_retryable_publish_error_code(Some("MOD-3429")));
    assert!(is_retryable_publish_error_code(Some("DB-4001")));
    assert!(!is_retryable_publish_error_code(Some("IPC-6001")));
    assert!(!is_retryable_publish_error_code(None));
}

#[test]
fn sync_mode_names() {
    assert_eq!(parse_sync_mode("database").unwrap(), SyncModeKind::Database);
    assert_eq!(parse_sync_mode("page_tree").unwrap(), SyncModeKind::PageTree);
    let err = parse_sync_mode("tree").unwrap_err();
    assert_eq!(
        err.message(),
        "validation failed: NOTION_SYNC_MODE must be 'page_tree' or 'database', got 'tree'"
    );
}

#[test]
fn job_outcome_statuses() {
    assert_eq!(notion_sync_job_outcome(Some(&summary(0, 0, 0)), None).status, "skipped");
    assert_eq!(notion_sync_job_outcome(Some(&summary(2, 2, 0)), None).status, "success");
    let out = notion_sync_job_outcome(None, None);
    assert_eq!(out.status, "failed");
    assert_eq!(out.fail_count, 0);
    let err = BackendError::Validation("bad".to_string());
    let out = notion_sync_job_outcome(Some(&summary(1, 1, 0)), Some(&err));
    assert_eq!(out.status, "failed");
    assert_eq!(out.success_count, 1);
    assert_eq!(out.error_message.as_deref(), Some("validation failed: bad"));
}

#[test]
fn publish_result_copies_counts() {
    let r = publish_result("pub_1".to_string(), Some(&summary(3, 2, 1)));
    assert_eq!((r.attempted, r.succeeded, r.failed, r.dead_lettered), (3, 2, 1, 1));
    let r = publish_result("pub_2".to_string(), None);
    assert_eq!((r.attempted, r.succeeded, r.failed), (0, 0, 0));
    assert_eq!(r.request_id, "pub_2");
}

#[test]
fn audit_entries() {
    let empty = batch_audit_entry(None);
    assert_eq!(empty.status, "skipped");
    assert!(!empty.retryable);
    let failure = BatchFailure {
        code: "INT-9000".to_string(),
        message: "internal failed: x".to_string(),
        retryable: true,
    };
    let failed = candidate_audit_entry(Some(&failure), None);
    assert_eq!(failed.status, "failed");
    assert_eq!(failed.error_code.as_deref(), Some("INT-9000"));
    assert!(failed.retryable);
    let retry = SyncRecordState {
        sync_state: "retry".to_string(),
        error_code: Some("IPC-6001".to_string()),
        error_message: None,
    };
    let e = candidate_audit_entry(None, Some(&retry));
    assert_eq!(e.status, "partial");
    assert!(e.retryable);
    let failed_rec = SyncRecordState {
        sync_state: "failed".to_string(),
        error_code: Some("IPC-6001".to_string()),
        error_message: Some("m".to_string()),
    };
    let e = candidate_audit_entry(None, Some(&failed_rec));
    assert_eq!(e.status, "failed");
    assert!(!e.retryable);
    let other = SyncRecordState { sync_state: "pending".to_string(), error_code: None, error_message: None };
    assert_eq!(candidate_audit_entry(None, Some(&other)).status, "skipped");
    assert_eq!(candidate_audit_entry(None, None).status, "skipped");
    assert_eq!(per_item_latency(100, 3), 33);
    assert_eq!(per_item_latency(-5, 2), 0);
}

#[test]
fn source_inactive_checks() {
    assert!(check_inactive_item_id("  ").is_err());
    assert!(check_inactive_item_id("src_1").is_ok());
    assert_eq!(source_item_not_found("src_9").message(), "validation failed: source item not found: src_9");
    let r = inactive_mark_result("src_1".to_string(), "2026-01-01 00:00:00".to_string());
    assert_eq!(r.active_state, "inactive");
}

#[test]
fn tool_probe_steps() {
    assert_eq!(
        probe_candidates("pdftotext"),
        vec![
            "pdftotext".to_string(),
            "/opt/homebrew/bin/pdftotext".to_string(),
            "/usr/local/bin/pdftotext".to_string()
        ]
    );
    assert_eq!(probe_candidates("textutil").len(), 2);
    assert!(probe_step("x", &ProbeOutcome::NotFound).is_none());
    let ran = ProbeOutcome::Ran { success: false, stdout_empty: true, stderr_empty: false };
    assert_eq!(probe_step("x", &ran).unwrap().unwrap(), true);
    let silent = ProbeOutcome::Ran { success: false, stdout_empty: true, stderr_empty: true };
    assert_eq!(probe_step("x", &silent).unwrap().unwrap(), false);
    let failed = ProbeOutcome::Failed { message: "denied".to_string() };
    let err = probe_step("/usr/bin/textutil", &failed).unwrap().unwrap_err();
    assert_eq!(err.message(), "internal failed: local tool probe failed for /usr/bin/textutil: denied");
}

#[test]
fn replies_and_pages() {
    let err = BackendError::Storage("disk".to_string());
    let api = ApiError::from_backend(&err);
    assert_eq!(api.code, "DB-4001");
    assert!(api.retryable);
    assert_eq!(api.message, "storage failed: disk");
    let ok: ApiResponse<u32> = ApiResponse::ok("r1".to_string(), 5);
    assert!(ok.ok && ok.data == Some(5) && ok.error.is_none());
    let bad: ApiResponse<u32> = ApiResponse::err("r2".to_string(), api);
    assert!(!bad.ok && bad.data.is_none());
    let p = paged(vec![1u8, 2], &PageReq { page: 2, page_size: 10 }, -3);
    assert_eq!((p.page, p.page_size, p.total), (2, 10, 0));
    assert_eq!(queue_title(None), "未命名内容");
    assert_eq!(queue_title(Some("t".to_string())), "t");
}
