use helper_backend::ai_orchestrator::select_route;
use helper_backend::app_core::ingest::{
    backfill_review_id, check_content_raw, files_collect_dead_letter, media_fields, notion_action_label, pipeline_ids,
    pipeline_routing, publish_blocked_by_review, review_queue_action, xhs_backfill_entry,
    xhs_collect_payload, xhs_requires_manual_review, xhs_review_needs_person, ReviewQueueAction,
};
use helper_backend::app_core::insight::{
    collection_insight, record_replay, replay_start, stats_day_bounds, sync_log_total,
    tally_review_states, tally_sync_states,
};
use helper_backend::app_core::{
    daily_job_task_count, dead_letter_replay_route, escape_json, normalize_optional_filter,
    normalize_review_state_filter, normalize_status_filter, page_bounds, validate_collect_source,
    validate_log_query, CollectionSourceBreakdown, DateRange, PageReq, ReplayRoute,
};
use helper_backend::budget_guard::{circuit_state, CircuitState};
use helper_backend::error::BackendError;
use helper_backend::pipeline::analyze::{gate_label, infer_final_category, infer_labels, GateBucketDto};
use helper_backend::pipeline::dedupe::is_hard_duplicate;
use helper_backend::app_core::ingest::pipeline_dead_letter_id;

/// FNV-1a over the bytes with the offset this project uses, in lower hex.
fn hash_hex(s: &str) -> String {
    let mut h: u64 = 1469598103934665603;
    for b in s.as_bytes() {
        h ^= *b as u64;
        h = h.wrapping_mul(1099511628211);
    }
    format!("{:x}", h)
}

fn rows(v: &[(&str, u32)]) -> Vec<(String, u32)> {
    v.iter().map(|(s, n)| (s.to_string(), *n)).collect()
}

// ── Filters and commands ────────────────────────────────────────────────────

#[test]
fn optional_filter_drops_blank_values() {
    assert_eq!(normalize_optional_filter(Some("  x ".to_string())), Some("x".to_string()));
    assert_eq!(normalize_optional_filter(Some("   ".to_string())), None);
    assert_eq!(normalize_optional_filter(None), None);
}

#[test]
fn status_filter_accepts_known_states_only() {
    assert_eq!(
        normalize_status_filter(Some(" SUCCESS ".to_string())).ok(),
        Some(Some("success".to_string()))
    );
    assert_eq!(normalize_status_filter(None).ok(), Some(None));
    assert!(matches!(normalize_status_filter(Some("weird".to_string())), Err(BackendError::Validation(_))));
    assert_eq!(
        normalize_review_state_filter(Some("Done".to_string())).ok(),
        Some(Some("done".to_string()))
    );
    assert!(normalize_review_state_filter(Some("success".to_string())).is_err());
}

#[test]
fn escape_json_escapes_backslash_and_quote() {
    assert_eq!(escape_json("a\"b\\c"), "a\\\"b\\\\c");
    assert_eq!(escape_json("plain"), "plain");
}

#[test]
fn collect_source_must_be_known() {
    assert!(validate_collect_source("xhs").is_ok());
    assert!(validate_collect_source("bili").is_ok());
    let err = validate_collect_source("tiktok").unwrap_err();
    assert_eq!(err.message(), "validation failed: unsupported source: tiktok");
}

#[test]
fn daily_job_counts_its_tasks() {
    assert_eq!(daily_job_task_count(true), 4);
    assert_eq!(daily_job_task_count(false), 3);
}

#[test]
fn page_bounds_give_size_and_offset() {
    assert_eq!(page_bounds(&PageReq { page: 3, page_size: 20 }).ok(), Some((20, 40)));
    assert_eq!(page_bounds(&PageReq { page: 1, page_size: 5 }).ok(), Some((5, 0)));
    let err = page_bounds(&PageReq { page: 0, page_size: 5 }).unwrap_err();
    assert_eq!(err.message(), "validation failed: page and page_size must be positive");
}

#[test]
fn log_query_needs_page_and_range() {
    let range = DateRange { from: "2026-01-01".to_string(), to: "2026-01-31".to_string() };
    assert!(validate_log_query(&range, &PageReq { page: 1, page_size: 10 }).is_ok());
    assert!(validate_log_query(&range, &PageReq { page: 1, page_size: 0 }).is_err());
    let blank = DateRange { from: " ".to_string(), to: "2026-01-31".to_string() };
    assert!(validate_log_query(&blank, &PageReq { page: 1, page_size: 10 }).is_err());
}

#[test]
fn dead_letters_replay_by_kind_and_stage() {
    assert_eq!(dead_letter_replay_route("sync_record", "notion_sync", "open"), ReplayRoute::SyncRecord);
    assert_eq!(
        dead_letter_replay_route("sync_record", "notion_sync_page_tree", "open"),
        ReplayRoute::SyncRecord
    );
    assert_eq!(dead_letter_replay_route("pipeline", "pipeline_execute", "open"), ReplayRoute::Pipeline);
    assert_eq!(dead_letter_replay_route("pipeline", "wechat_persist", "open"), ReplayRoute::Pipeline);
    assert_eq!(dead_letter_replay_route("pipeline", "pipeline_execute", "closed"), ReplayRoute::Closed);
    assert_eq!(dead_letter_replay_route("other", "notion_sync", "open"), ReplayRoute::Ignore);
}

// ── Ingest ──────────────────────────────────────────────────────────────────

#[test]
fn xhs_manual_review_rules() {
    assert!(xhs_requires_manual_review(false, false, false, "abc"));
    assert!(!xhs_requires_manual_review(false, false, false, "正常内容"));
    assert!(xhs_requires_manual_review(false, true, false, "long enough"));
    assert!(xhs_requires_manual_review(true, false, false, "long enough"));
    assert!(xhs_review_needs_person(false, false, 3));
    assert!(!xhs_review_needs_person(false, false, 4));
    assert!(xhs_review_needs_person(false, true, 100));
}

#[test]
fn routing_of_xhs_and_other_items() {
    let r = pipeline_routing(true, true, false, "direct");
    assert!(r.review_required && r.force_review);
    assert_eq!(r.review_reason, "XHS anomaly requires manual review");
    assert_eq!(r.final_status, "review");
    let r = pipeline_routing(true, false, true, "exception");
    assert!(!r.review_required && !r.force_review);
    assert_eq!(r.final_status, "direct");
    let r = pipeline_routing(false, true, false, "exception");
    assert!(!r.review_required);
    assert_eq!(r.review_reason, "C < 0.78 OR ValueScore >= 0.85");
    assert_eq!(r.final_status, "exception");
}

#[test]
fn review_queue_actions() {
    assert_eq!(review_queue_action(true, true, false, false, false, false), ReviewQueueAction::Insert);
    assert_eq!(review_queue_action(true, false, true, true, true, false), ReviewQueueAction::Reopen);
    assert_eq!(review_queue_action(true, true, false, false, true, true), ReviewQueueAction::Keep);
    assert_eq!(review_queue_action(true, false, false, true, false, false), ReviewQueueAction::AutoPassInsert);
    assert_eq!(review_queue_action(false, true, false, true, true, true), ReviewQueueAction::AutoPassClose);
    assert_eq!(review_queue_action(false, true, false, false, false, false), ReviewQueueAction::Keep);
    assert!(ReviewQueueAction::Insert.queues_review());
    assert!(!ReviewQueueAction::AutoPassInsert.queues_review());
}

#[test]
fn review_is_never_skipped_for_a_forced_item() {
    for entry in [false, true] {
        for open in [false, true] {
            let a = review_queue_action(true, false, true, true, entry, open);
            assert!(a != ReviewQueueAction::AutoPassInsert && a != ReviewQueueAction::AutoPassClose);
        }
    }
}

#[test]
fn publish_and_notion_labels() {
    assert!(publish_blocked_by_review(true, true));
    assert!(!publish_blocked_by_review(false, true));
    assert_eq!(notion_action_label(true), "update");
    assert_eq!(notion_action_label(false), "create");
}

#[test]
fn pipeline_ids_are_derived_from_the_item() {
    let ids = pipeline_ids("xhs", "uh", "fp", "key0123456789abc");
    let ext = format!("ext_{}", hash_hex("uh|fp"));
    assert_eq!(ids.external_id, ext);
    let src = format!("src_{}", hash_hex(&format!("xhs|{}", ext)));
    assert_eq!(ids.source_item_id, src);
    assert_eq!(ids.normalized_item_id, "norm_key0123456789abc");
    assert_eq!(ids.analysis_result_id, "ana_key0123456789abc");
    assert_eq!(ids.sync_record_id, "sync_key0123456789abc");
    assert_eq!(ids.review_id, "rvw_key0123456789abc");
    assert_eq!(ids.dedupe_id, "dup_key0123456789abc");
    assert_eq!(ids.publish_task_id, format!("pt_{}", src));
    assert_eq!(ids.target_record_id, "ntn_key012345678");
    let again = pipeline_ids("xhs", "uh", "fp", "key0123456789abc");
    assert_eq!(again.source_item_id, ids.source_item_id);
}

#[test]
fn backfill_entries() {
    assert_eq!(xhs_backfill_entry(true), ("pending", "XHS anomaly requires manual review"));
    assert_eq!(xhs_backfill_entry(false), ("done", "XHS auto-pass normal item"));
    assert_eq!(backfill_review_id("n", "a", "f"), format!("rvw_bf_{}", hash_hex("n|a|f")));
}

#[test]
fn collect_payload_and_dead_letters() {
    assert_eq!(
        xhs_collect_payload("id\"1", "https://x"),
        "{\"external_id\":\"id\\\"1\",\"source_url\":\"https://x\"}"
    );
    assert!(files_collect_dead_letter(&BackendError::Validation("v".to_string())));
    assert!(!files_collect_dead_letter(&BackendError::Storage("s".to_string())));
    assert!(!files_collect_dead_letter(&BackendError::Internal("i".to_string())));
}

#[test]
fn media_fields_trim_and_cap_images() {
    let images: Vec<String> = (0..10).map(|i| format!(" https://img/{} ", i % 9)).collect();
    let (cover, list) = media_fields(Some("  https://img/c  "), &images);
    assert_eq!(cover.as_deref(), Some("https://img/c"));
    assert_eq!(list.len(), 8);
    assert_eq!(list[0], "https://img/0");
    let (cover, list) = media_fields(Some("   "), &vec![]);
    assert_eq!(cover, None);
    assert!(list.is_empty());
}

// ── Insight ─────────────────────────────────────────────────────────────────

#[test]
fn review_and_sync_states_are_tallied() {
    let review = tally_review_states(&rows(&[("pending", 2), ("processing", 1), ("done", 4), ("rejected", 1), ("none", 3)]));
    assert_eq!((review.pending, review.done, review.rejected, review.direct_no_review), (3, 4, 1, 3));
    let sync = tally_sync_states(&rows(&[("pending", 1), ("success", 5), ("failed", 2), ("retry", 1), ("", 4)]));
    assert_eq!((sync.pending, sync.success, sync.failed, sync.retry, sync.not_started), (1, 5, 2, 1, 4));
}

#[test]
fn collection_insight_copies_tallies() {
    let review = tally_review_states(&rows(&[("done", 1)]));
    let sync = tally_sync_states(&rows(&[("success", 1)]));
    let insight = collection_insight(
        "2026-02-01".to_string(),
        -5,
        vec![CollectionSourceBreakdown { source: "xhs".to_string(), count: 1 }],
        &review,
        &sync,
        vec![],
    );
    assert_eq!(insight.today_total, 0);
    assert_eq!(insight.review_done, 1);
    assert_eq!(insight.sync_success, 1);
    assert_eq!(insight.sources.len(), 1);
}

#[test]
fn stats_day_bounds_take_the_date_part() {
    let range = DateRange { from: "2026-02-01 10:00:00".to_string(), to: "2026-02-03".to_string() };
    assert_eq!(
        stats_day_bounds(&range).ok(),
        Some(("2026-02-01".to_string(), "2026-02-03".to_string()))
    );
    let bad = DateRange { from: "2026年02月01日".to_string(), to: "2026-02-03".to_string() };
    assert_eq!(stats_day_bounds(&bad).unwrap_err().message(), "validation failed: range.from invalid format");
}

#[test]
fn sync_log_total_and_replay_tally() {
    assert_eq!(sync_log_total(3, 4), 7);
    assert_eq!(sync_log_total(-10, 4), 0);
    let mut t = replay_start(3);
    record_replay(&mut t, true);
    record_replay(&mut t, false);
    record_replay(&mut t, true);
    assert_eq!((t.requested, t.requeued, t.ignored), (3, 2, 1));
}

#[test]
fn tallies_add_up_to_the_rows() {
    let given = rows(&[("pending", 2), ("processing", 1), ("done", 4), ("rejected", 1), ("none", 3), ("retry", 6)]);
    let total: u32 = given.iter().map(|(_, c)| *c).sum();
    let review = tally_review_states(&given);
    assert_eq!(review.pending + review.done + review.rejected + review.direct_no_review, total);
    let sync = tally_sync_states(&given);
    assert_eq!(sync.pending + sync.success + sync.failed + sync.retry + sync.not_started, total);
}

#[test]
fn a_whole_replay_counts_every_letter() {
    let flags = [true, false, false, true, false, true, true];
    let mut t = replay_start(flags.len() as u32);
    for f in flags {
        record_replay(&mut t, f);
    }
    assert_eq!(t.requeued + t.ignored, t.requested);
    assert_eq!(t.requeued, 4);
}

// ── Budget, routing of models, analysis labels ─────────────────────────────

#[test]
fn circuit_state_follows_the_budget() {
    assert_eq!(circuit_state(true, true), CircuitState::Normal);
    assert_eq!(circuit_state(false, true), CircuitState::ReviewOff);
    assert_eq!(circuit_state(false, false), CircuitState::DailyReportOff);
    assert_eq!(circuit_state(true, false), CircuitState::DailyReportOff);
}

#[test]
fn model_route_by_rule_and_budget() {
    let r = select_route(true, true);
    assert_eq!(r.primary_model, "qwen-plus");
    assert_eq!(r.review_model, Some("gpt-5-mini"));
    let r = select_route(true, false);
    assert_eq!(r.review_model, None);
    assert_eq!(r.reason, "review disabled by budget circuit breaker");
    let r = select_route(false, true);
    assert_eq!(r.review_model, None);
}

#[test]
fn hard_duplicates_match_exactly() {
    let existing = vec!["aa".to_string(), "bb".to_string()];
    assert!(is_hard_duplicate("bb", &existing));
    assert!(!is_hard_duplicate("b", &existing));
}

#[test]
fn labels_and_categories_from_keywords() {
    assert_eq!(infer_labels("Notion and RUST"), vec!["效率工具".to_string(), "后端工程".to_string()]);
    assert_eq!(infer_labels("nothing"), vec!["未分类".to_string()]);
    assert_eq!(
        infer_final_category("Learning Rust", &vec![]),
        ("学习".to_string(), "keyword_match".to_string())
    );
    assert_eq!(
        infer_final_category("plain", &vec!["x".to_string()]),
        ("Inbox".to_string(), "fallback_tag_unmapped".to_string())
    );
    assert_eq!(
        infer_final_category("plain", &vec!["未分类".to_string()]),
        ("Inbox".to_string(), "fallback_default".to_string())
    );
    assert_eq!(gate_label(GateBucketDto::Review), "review");
}

#[test]
fn pipeline_dead_letter_ids_hash_their_parts() {
    assert_eq!(
        pipeline_dead_letter_id("pipeline_execute", "unknown", "DB-4001", "storage failed: x"),
        format!("dlq_{}", hash_hex("pipeline_execute|unknown|DB-4001|storage failed: x"))
    );
}

#[test]
fn a_pipeline_request_needs_content() {
    assert!(check_content_raw(" x ").is_ok());
    let err = check_content_raw(" \n\t ").unwrap_err();
    assert_eq!(err.message(), "validation failed: content_raw must not be empty");
}
