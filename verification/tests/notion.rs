use helper_backend::sync_notion::content::{
    action_keyword_hits, budget_guard_policy, dedupe_string_vec, evaluate_structured_quality,
    finish_structured_content, model_skip_reason, normalize_string_list, normalize_text_output,
    record_model_call, ContentRow, ModelGate, ModelStep,
};
use helper_backend::sync_notion::notion_api::{normalize_notion_token, sanitize_page_title, NotionChildPage, NotionPageSnapshot};
use helper_backend::sync_notion::render::{
    assign_block_ids, block_updates, category_changed, find_child_page, missing_blocks,
    new_page_blocks, normalize_node_key, quality_gate_error, render_images_block,
    render_key_points_block, render_source_link_block, render_summary_block, render_tags_block,
    route_labels, tree_group_id, tree_item_id, BlockKind, ItemBlockIds, ItemBlockTexts,
};
use helper_backend::sync_notion::service::{
    decide_failure, parse_default_categories, resolve_category_growth_limit, FailureAction,
    SyncOutcome, SyncRunSummary,
};
use helper_backend::sync_notion::client::RetryPolicy;
use helper_backend::sync_notion::smoke::{
    compare_snapshot, compare_tree_snapshot, normalize_url_opt, smoke_job_outcome, smoke_report,
    text_normalize, LocalSyncSnapshot, LocalTreeSyncSnapshot, NotionSmokeReport,
};
use helper_backend::sync_notion::tree::{
    clean_item_title, custom_category_keys, default_category_strings, route_category,
    route_category_with_growth_limit, week_key_and_title,
};
use helper_backend::error::BackendError;

fn gate() -> ModelGate {
    ModelGate {
        enabled: true,
        has_api_key: true,
        calls_used: 0,
        model_call_cap: 20,
        fuse_active: false,
        reduce_active: false,
    }
}

#[test]
fn sanitize_page_title_limits_length() {
    let raw = "  ".to_string() + &"x".repeat(500);
    let title = sanitize_page_title(&raw);
    assert_eq!(title.len(), 120);
}

#[test]
fn normalize_notion_token_removes_bearer_prefix_and_quotes() {
    assert_eq!(normalize_notion_token("Bearer ntn_abc123"), "ntn_abc123".to_string());
    assert_eq!(normalize_notion_token("bearer   ntn_abc123"), "ntn_abc123".to_string());
    assert_eq!(normalize_notion_token("\"ntn_abc123\""), "ntn_abc123".to_string());
    assert_eq!(normalize_notion_token("'ntn_abc123'"), "ntn_abc123".to_string());
}

#[test]
fn compare_snapshot_accepts_whitespace_and_trailing_slash_differences() {
    let local = LocalSyncSnapshot {
        sync_record_id: "sync_1".to_string(),
        normalized_item_id: "norm_1".to_string(),
        title: "hello   world".to_string(),
        summary: "a  b c".to_string(),
        source: "wechat".to_string(),
        source_url: Some("https://example.com/a/".to_string()),
    };
    let remote = NotionPageSnapshot {
        page_id: "pg_1".to_string(),
        normalized_item_id: "norm_1".to_string(),
        title: "hello world".to_string(),
        summary: "a b c".to_string(),
        source: "wechat".to_string(),
        source_url: Some("https://example.com/a".to_string()),
    };
    let item = compare_snapshot(&local, Some(&remote));
    assert!(item.overall_match);
}

#[test]
fn compare_snapshot_flags_missing_remote() {
    let local = LocalSyncSnapshot {
        sync_record_id: "sync_1".to_string(),
        normalized_item_id: "norm_1".to_string(),
        title: "t".to_string(),
        summary: "s".to_string(),
        source: "wechat".to_string(),
        source_url: None,
    };
    let item = compare_snapshot(&local, None);
    assert!(!item.remote_found);
    assert!(!item.overall_match);
}

#[test]
fn compare_tree_snapshot_matches_metadata_and_summary() {
    let local = LocalTreeSyncSnapshot {
        sync_record_id: "sync_1".to_string(),
        normalized_item_id: "norm_1".to_string(),
        title: "hello world".to_string(),
        summary: "summary body".to_string(),
        source: "wechat".to_string(),
        source_url: Some("https://example.com/a".to_string()),
        page_id: Some("pg_1".to_string()),
        meta_block_id: Some("blk_meta".to_string()),
        summary_block_id: Some("blk_sum".to_string()),
    };
    let item = compare_tree_snapshot(
        &local,
        Some("hello world"),
        Some("source: wechat | url: https://example.com/a | normalized_id: norm_1"),
        Some("summary body"),
    );
    assert!(item.overall_match);
}

#[test]
fn persist_smoke_report_records_partial_job_run() {
    let report = NotionSmokeReport {
        mode: "database".to_string(),
        started_at: "2026-02-26 00:00:00".to_string(),
        summary: SyncRunSummary {
            scanned: 2,
            attempted: 2,
            succeeded: 1,
            failed: 1,
            requeued: 0,
            dead_lettered: 0,
        },
        checked: 1,
        matched: 0,
        mismatched: 1,
        items: vec![],
    };
    let outcome = smoke_job_outcome(&report);
    assert_eq!(outcome.status, "partial");
    assert_eq!(outcome.success_count, 1);
    assert_eq!(outcome.fail_count, 2);
    assert_eq!(outcome.error_code.as_deref(), Some("INT-9000"));
    assert_eq!(outcome.error_message.as_deref(), Some("notion smoke mismatched count: 1"));
}

#[test]
fn smoke_report_counts_matches() {
    let local = LocalSyncSnapshot {
        sync_record_id: "s".to_string(),
        normalized_item_id: "n".to_string(),
        title: "t".to_string(),
        summary: "x".to_string(),
        source: "wechat".to_string(),
        source_url: None,
    };
    let remote = NotionPageSnapshot {
        page_id: "p".to_string(),
        normalized_item_id: " n ".to_string(),
        title: " t".to_string(),
        summary: "x".to_string(),
        source: "wechat ".to_string(),
        source_url: None,
    };
    let matched = compare_snapshot(&local, Some(&remote));
    assert!(matched.overall_match);
    let missing = compare_snapshot(&local, None);
    let summary = SyncRunSummary::start(2);
    let report = smoke_report("page_tree", "2026-01-01 00:00:00".to_string(), summary, vec![matched, missing]);
    assert_eq!((report.checked, report.matched, report.mismatched), (2, 1, 1));
    assert_eq!(report.mode, "page_tree");
    assert_eq!(smoke_job_outcome(&report).status, "skipped");
}

#[test]
fn url_and_text_normalisation() {
    assert_eq!(normalize_url_opt(Some(" https://a.b/x// ")).as_deref(), Some("https://a.b/x"));
    assert_eq!(normalize_url_opt(Some("https://")).as_deref(), Some("https://"));
    assert_eq!(normalize_url_opt(Some("https:///")).as_deref(), Some("https://"));
    assert_eq!(normalize_url_opt(None), None);
    assert_eq!(text_normalize("  a \n b\t c "), "a b c");
}

#[test]
fn route_to_inbox_when_low_confidence() {
    let decision = route_category_with_growth_limit(
        &vec!["Reading List".to_string()],
        false,
        "Inbox",
        &default_category_strings(),
        &Vec::new(),
        10,
    );
    assert_eq!(decision.category, "Inbox");
}

#[test]
fn week_key_cross_year_boundary() {
    let (key, title) = week_key_and_title(1_767_024_600, "Asia/Shanghai").expect("week key");
    assert_eq!(key, "2026-W01");
    assert_eq!(title, "2026年第01周");
}

#[test]
fn week_key_changes_with_timezone() {
    let (utc_key, _) = week_key_and_title(1_767_573_000, "UTC").expect("utc week");
    let (la_key, _) = week_key_and_title(1_767_573_000, "America/Los_Angeles").expect("la week");
    assert_eq!(utc_key, "2026-W02");
    assert_eq!(la_key, "2026-W01");
}

#[test]
fn week_key_rejects_invalid_timezone() {
    let err = week_key_and_title(1_767_573_000, "Asia/Nowhere").expect_err("invalid tz");
    assert!(err.contains("invalid timezone"));
}

#[test]
fn growth_limit_zero_routes_custom_to_unknown() {
    let decision = route_category_with_growth_limit(
        &vec!["Custom One".to_string()],
        true,
        "Inbox",
        &default_category_strings(),
        &Vec::new(),
        0,
    );
    assert_eq!(decision.category, "Inbox");
    assert_eq!(decision.reason.as_deref(), Some("growth_limit_exceeded"));
}

#[test]
fn growth_limit_allows_custom_when_under_limit() {
    let known = vec!["custom-a".to_string()];
    let decision = route_category_with_growth_limit(
        &vec!["Custom B".to_string()],
        true,
        "Inbox",
        &default_category_strings(),
        &known,
        3,
    );
    assert_eq!(decision.category, "Custom B");
    assert!(decision.created_new_custom_category);
}

#[test]
fn growth_limit_routes_to_unknown_when_limit_reached() {
    let known = vec!["custom-a".to_string()];
    let decision = route_category_with_growth_limit(
        &vec!["Custom B".to_string()],
        true,
        "Inbox",
        &default_category_strings(),
        &known,
        1,
    );
    assert_eq!(decision.category, "Inbox");
    assert_eq!(decision.reason.as_deref(), Some("growth_limit_exceeded"));
}

#[test]
fn clean_title_truncates_to_80_chars() {
    let title = clean_item_title(&"a".repeat(120));
    assert_eq!(title.chars().count(), 80);
}

#[test]
fn route_category_matches_defaults_case_insensitively() {
    let d = route_category(&vec!["inbox".to_string(), "工作".to_string()], true, "Inbox", &default_category_strings());
    assert_eq!(d.category, "Inbox");
    assert_eq!(d.reason, None);
    let d = route_category(&vec!["Novel".to_string()], true, "Inbox", &default_category_strings());
    assert_eq!(d.category, "Inbox");
    assert_eq!(d.reason.as_deref(), Some("growth_limit_exceeded"));
}

#[test]
fn custom_keys_skip_defaults_unknown_and_repeats() {
    let names = vec![
        " Custom-A ".to_string(),
        "inbox".to_string(),
        "学习".to_string(),
        "custom-a".to_string(),
        "Other".to_string(),
    ];
    let keys = custom_category_keys(&names, &default_category_strings(), "Inbox");
    assert_eq!(keys, vec!["custom-a".to_string(), "other".to_string()]);
}

#[test]
fn model_skip_reason_returns_budget_fused_at_full_budget() {
    let mut state = gate();
    state.fuse_active = true;
    assert_eq!(model_skip_reason(&state), Some("budget_fused"));
}

#[test]
fn model_skip_reason_returns_reduced_cap_when_reduced_mode_hits_cap() {
    let mut state = gate();
    state.reduce_active = true;
    state.model_call_cap = 4;
    state.calls_used = 4;
    assert_eq!(model_skip_reason(&state), Some("budget_reduced_cap"));
}

#[test]
fn model_skip_reason_allows_model_when_within_cap() {
    let state = gate();
    assert_eq!(model_skip_reason(&state), None);
}

#[test]
fn model_gate_counts_calls_until_cap() {
    let mut g = gate();
    g.model_call_cap = 2;
    record_model_call(&mut g);
    assert_eq!(model_skip_reason(&g), None);
    record_model_call(&mut g);
    assert_eq!(model_skip_reason(&g), Some("model_call_cap_reached"));
    let mut off = gate();
    off.has_api_key = false;
    assert_eq!(model_skip_reason(&off), Some("model_api_key_missing"));
    off.enabled = false;
    assert_eq!(model_skip_reason(&off), Some("model_disabled"));
    let p = budget_guard_policy(false, true, 20, 10);
    assert_eq!((p.model_call_cap, p.fuse_active, p.reduce_active), (10, false, true));
    let p = budget_guard_policy(true, true, 20, 10);
    assert_eq!((p.model_call_cap, p.fuse_active, p.reduce_active), (0, true, false));
    let mut g = gate();
    g.calls_used = 3;
    g.apply_policy(&p);
    assert_eq!(g.calls_used, 3);
    assert_eq!(model_skip_reason(&g), Some("budget_fused"));
}

#[test]
fn text_and_list_clean_up() {
    assert_eq!(normalize_text_output("  a\r\nb \t c  ", 10), "a b c");
    assert_eq!(normalize_text_output("abcdef", 3), "abc");
    let list = normalize_string_list(
        &vec![" Alpha ".to_string(), "".to_string(), "alpha".to_string(), "Beta".to_string(), "gamma".to_string()],
        3,
        3,
    );
    assert_eq!(list, vec!["Alp".to_string(), "Bet".to_string()]);
    assert_eq!(normalize_string_list(&vec!["x".to_string(), "y".to_string()], 0, 5), vec!["x".to_string()]);
    let mut v = vec!["A".to_string(), " a ".to_string(), "  ".to_string(), "b".to_string()];
    dedupe_string_vec(&mut v);
    assert_eq!(v, vec!["A".to_string(), "b".to_string()]);
}

#[test]
fn action_words_are_counted_once_each() {
    let n = action_keyword_hits("先做计划", &vec!["然后执行".to_string(), "最后复盘，然后".to_string()]);
    assert_eq!(n, 5);
    assert_eq!(action_keyword_hits("", &vec![]), 0);
}

#[test]
fn quality_of_empty_content_is_failed() {
    let v = evaluate_structured_quality("", "", "", &vec![], &vec![], None);
    assert_eq!(v.state, "failed");
    assert_eq!(
        v.degraded,
        vec![
            "summary", "key_points", "tags", "factuality", "evidence", "actionability",
            "summary_length", "readability"
        ]
        .into_iter()
        .map(String::from)
        .collect::<Vec<_>>()
    );
    assert_eq!(v.score_thirds, 6 + 3 + 12 + 6 + 3 + 30);
}

#[test]
fn quality_short_source_is_raised_to_sixty_points() {
    let v = evaluate_structured_quality("短", "", "一句话", &vec![], &vec!["未分类".to_string()], Some("odd"));
    assert_eq!(v.score_thirds, 180);
    assert_eq!(v.state, "degraded");
    assert!(v.degraded.contains(&"route_reason".to_string()));
    assert_eq!(v.degraded.last().map(String::as_str), Some("short_source_context"));
}

#[test]
fn quality_of_grounded_actionable_content_is_success() {
    let source = "建议先阅读框架文档，然后执行步骤一，最后复盘。".repeat(12);
    let summary = "建议先阅读框架文档然后执行步骤一最后复盘，".repeat(5);
    let points = vec![
        "先阅读框架文档".to_string(),
        "然后执行步骤一".to_string(),
        "最后复盘策略".to_string(),
    ];
    let tags = vec!["学习".to_string(), "方法".to_string(), "效率".to_string()];
    let v = evaluate_structured_quality(&source, "", &summary, &points, &tags, Some("keyword_match"));
    assert_eq!(v.score_thirds, 300);
    assert_eq!(v.state, "success");
    assert!(v.degraded.is_empty());
}

#[test]
fn structured_content_from_rules_and_model() {
    let row = ContentRow {
        content_raw: "正文".to_string(),
        summary: "  ".to_string(),
        key_points: vec![],
        tags: vec![],
        labels: vec![],
        cover_url: None,
        image_urls: vec![],
    };
    let skipped = finish_structured_content(&row, None, &ModelStep::Skipped { reason: "model_api_key_missing".to_string() });
    assert_eq!(skipped.summary, "-");
    assert_eq!(skipped.tags, vec!["未分类".to_string()]);
    assert_eq!(skipped.content_source, "rules");
    assert_eq!(skipped.quality_state, "failed");
    assert!(skipped.quality_score_thirds <= 120);
    assert_eq!(skipped.degraded_fields[0], "model_api_key_missing");
    assert!(skipped.degraded_fields.contains(&"images".to_string()));
    let answered = finish_structured_content(
        &row,
        Some("keyword_match"),
        &ModelStep::Output {
            summary: " 模型摘要 ".to_string(),
            key_points: vec!["要点".to_string()],
            tags: vec![],
            degraded_fields: vec![" tone ".to_string()],
        },
    );
    assert_eq!(answered.summary, "模型摘要");
    assert_eq!(answered.key_points, vec!["要点".to_string()]);
    assert_eq!(answered.content_source, "qwen");
    assert_eq!(&answered.degraded_fields[0..2], &["tags".to_string(), "tone".to_string()]);
}

#[test]
fn degraded_fields_are_listed_once() {
    let short = evaluate_structured_quality("短", "", "一句话", &vec![], &vec![], Some("odd"));
    let lowered: Vec<String> = short.degraded.iter().map(|f| f.trim().to_ascii_lowercase()).collect();
    for i in 0..lowered.len() {
        for j in i + 1..lowered.len() {
            assert_ne!(lowered[i], lowered[j]);
        }
    }
    assert!(short.degraded.contains(&"short_source_context".to_string()));
    let row = ContentRow {
        content_raw: "正文".to_string(),
        summary: String::new(),
        key_points: vec![],
        tags: vec![],
        labels: vec![],
        cover_url: None,
        image_urls: vec![],
    };
    let answered = finish_structured_content(
        &row,
        None,
        &ModelStep::Output {
            summary: String::new(),
            key_points: vec![],
            tags: vec![],
            degraded_fields: vec!["Summary".to_string(), " tags ".to_string(), "images".to_string(), "TONE".to_string(), "tone".to_string()],
        },
    );
    let lowered: Vec<String> = answered.degraded_fields.iter().map(|f| f.trim().to_ascii_lowercase()).collect();
    for i in 0..lowered.len() {
        for j in i + 1..lowered.len() {
            assert_ne!(lowered[i], lowered[j]);
        }
    }
    assert!(lowered.contains(&"tone".to_string()));
}

#[test]
fn blocks_render_as_shown_on_the_page() {
    assert_eq!(render_summary_block("  s "), "结论摘要\ns");
    assert_eq!(render_summary_block(""), "结论摘要\n-");
    let points = vec![" a ".to_string(), "".to_string(), "b".to_string()];
    assert_eq!(render_key_points_block(&points, "x"), "关键要点\n- a\n- b");
    assert_eq!(render_key_points_block(&vec![], "-"), "关键要点\n- 暂无要点");
    assert_eq!(render_key_points_block(&vec![], " sum "), "关键要点\n- sum");
    assert_eq!(render_source_link_block(Some(" ")), "原文链接\n-");
    assert_eq!(render_source_link_block(Some("https://x")), "原文链接\nhttps://x");
    assert_eq!(render_tags_block(&vec![], &vec!["l1".to_string(), "l2".to_string()]), "标签\nl1, l2");
    assert_eq!(render_tags_block(&vec![], &vec![]), "标签\n未分类");
    let imgs = vec![" u1 ".to_string(), "".to_string(), "u2".to_string(), "u3".to_string(), "u4".to_string()];
    assert_eq!(render_images_block(Some(" c "), &imgs), "图片\n封面: c\n图1: u1\n图2: u2\n图3: u3");
    assert_eq!(render_images_block(None, &vec![]), "");
    assert_eq!(normalize_node_key("  Work "), "work");
}

fn texts(images: &str) -> ItemBlockTexts {
    ItemBlockTexts {
        summary: "S".to_string(),
        key_points: "K".to_string(),
        source_link: "L".to_string(),
        tags: "T".to_string(),
        metadata: "".to_string(),
        images: images.to_string(),
    }
}

#[test]
fn block_plans_for_new_and_existing_pages() {
    let t = texts("IMG");
    let new_blocks = new_page_blocks(&t);
    let kinds: Vec<BlockKind> = new_blocks.iter().map(|b| b.0).collect();
    assert_eq!(
        kinds,
        vec![BlockKind::Summary, BlockKind::KeyPoints, BlockKind::SourceLink, BlockKind::Tags, BlockKind::Images]
    );
    let ids = ItemBlockIds {
        summary: Some("b1".to_string()),
        key_points: None,
        source_link: Some("b3".to_string()),
        tags: None,
        metadata: Some("bm".to_string()),
        images: None,
    };
    let missing = missing_blocks(&ids, &t);
    assert_eq!(missing.iter().map(|b| b.0).collect::<Vec<_>>(), vec![BlockKind::KeyPoints, BlockKind::Tags, BlockKind::Images]);
    let updates = block_updates(&ids, &texts(""));
    assert_eq!(
        updates,
        vec![
            ("bm".to_string(), " ".to_string()),
            ("b1".to_string(), "S".to_string()),
            ("b3".to_string(), "L".to_string())
        ]
    );
    let kinds: Vec<BlockKind> = missing.iter().map(|b| b.0).collect();
    let assigned = assign_block_ids(ids, &kinds, &vec!["n1".to_string(), "n2".to_string(), "n3".to_string()]);
    assert_eq!(assigned.key_points.as_deref(), Some("n1"));
    assert_eq!(assigned.tags.as_deref(), Some("n2"));
    assert_eq!(assigned.images.as_deref(), Some("n3"));
    assert_eq!(assigned.summary.as_deref(), Some("b1"));
}

#[test]
fn route_labels_and_node_ids() {
    let labels = route_labels(Some(" 工作 "), &vec!["a".to_string(), " 工作".to_string()], &vec!["a ".to_string(), "b".to_string()], "Inbox");
    assert_eq!(labels, vec!["工作".to_string(), "a".to_string(), "b".to_string()]);
    assert_eq!(route_labels(None, &vec![], &vec![" ".to_string()], "Inbox"), vec!["Inbox".to_string()]);
    assert_eq!(tree_item_id(""), "ntn_item_1469598103934665603");
    assert!(tree_group_id("week", "p", "2026-W01").starts_with("ntn_week_"));
    let pages = vec![
        NotionChildPage { page_id: "p1".to_string(), title: "Other".to_string() },
        NotionChildPage { page_id: "p2".to_string(), title: "INBOX".to_string() },
    ];
    assert_eq!(find_child_page(&pages, "inbox").as_deref(), Some("p2"));
    assert_eq!(find_child_page(&pages, "none"), None);
    assert!(category_changed(Some("Work"), "Life"));
    assert!(!category_changed(Some("WORK"), "work"));
    assert!(!category_changed(None, "work"));
    assert_eq!(
        quality_gate_error(121, "qwen").message(),
        "validation failed: content quality gate failed: score=40 source=qwen"
    );
    assert_eq!(quality_gate_error(122, "rules").message(), "validation failed: content quality gate failed: score=41 source=rules");
}

#[test]
fn failures_are_retried_then_dead_lettered() {
    let policy = RetryPolicy::default();
    let err = BackendError::Internal("HTTP 429 Too Many Requests".to_string());
    match decide_failure(&policy, 0, &err, false, "notion_sync") {
        FailureAction::Retry { next_retry_count, .. } => assert_eq!(next_retry_count, 1),
        other => panic!("expected retry, got {:?}", other),
    }
    let last = policy.max_attempts - 1;
    match decide_failure(&policy, last, &err, false, "notion_sync") {
        FailureAction::DeadLetter { stage, code, .. } => {
            assert_eq!(stage, "notion_sync");
            assert_eq!(code, "MOD-3429");
        }
        other => panic!("expected dead letter, got {:?}", other),
    }
    let gate_err = BackendError::Validation("content quality gate failed: score=40 source=qwen".to_string());
    let action = decide_failure(&policy, 0, &gate_err, true, "notion_sync_page_tree");
    match &action {
        FailureAction::DeadLetter { stage, code, .. } => {
            assert_eq!(stage, "notion_quality_gate");
            assert_eq!(code, "MOD-3101");
        }
        other => panic!("expected dead letter, got {:?}", other),
    }
    assert_eq!(action.outcome(), SyncOutcome::DeadLettered);
    let mut s = SyncRunSummary::start(3);
    s.record(SyncOutcome::Succeeded);
    s.record(action.outcome());
    s.record(SyncOutcome::Requeued);
    assert_eq!((s.attempted, s.succeeded, s.failed, s.requeued, s.dead_lettered), (3, 1, 2, 1, 1));
}

#[test]
fn tree_configuration() {
    assert_eq!(
        parse_default_categories(" 学习 | 工作 || Inbox "),
        vec!["学习".to_string(), "工作".to_string(), "Inbox".to_string()]
    );
    assert_eq!(resolve_category_growth_limit(32, true).unwrap(), 0);
    assert_eq!(resolve_category_growth_limit(32, false).unwrap(), 32);
    assert!(resolve_category_growth_limit(-1, false).is_err());
}
