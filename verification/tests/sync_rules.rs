use helper_backend::config::{
    env_bool, env_is_configured, env_or_db_i64, env_or_db_string, env_u64, env_usize,
    read_app_config_i64, read_notion_sync_mode, required_env, resolve_i64_config,
    resolve_string_config,
};
use helper_backend::error::BackendError;
use helper_backend::json::JsonValue;
use helper_backend::sync_notion::client::{plan_upsert_action, RetryPolicy, UpsertAction};
use helper_backend::sync_notion::content::{ai_source_text, qwen_call_needed, qwen_prompt, wants_deep_fetch};
use helper_backend::sync_notion::notion_api::{read_rich_text_items, read_text_property, read_title_property};
use helper_backend::sync_notion::service::{classify_sync_error_code, is_quality_gate_error, validate_timezone};
use helper_backend::sync_notion::smoke::{parse_u64_env, parse_usize_env, smoke_exit_code, smoke_report};
use helper_backend::sync_notion::service::{check_root_page_id, SyncOutcome, SyncRunSummary};
use helper_backend::sync_notion::tree::{item_week_key_and_title, normalize_key, parse_published_at};
use helper_backend::sync_notion::content::model_call_limits;
use helper_backend::sync_notion::service::{dead_letter_message, sync_dead_letter_id};

fn s(v: &str) -> JsonValue {
    JsonValue::Str(v.to_string())
}

fn obj(entries: Vec<(&str, JsonValue)>) -> JsonValue {
    JsonValue::Object(entries.into_iter().map(|(k, v)| (k.to_string(), v)).collect())
}

// ── Settings ────────────────────────────────────────────────────────────────

#[test]
fn env_values_are_read_with_defaults() {
    assert!(env_is_configured(Some(" x ".to_string())));
    assert!(!env_is_configured(Some("  ".to_string())));
    assert!(!env_is_configured(None));
    assert!(env_bool(Some(" YES ".to_string()), false));
    assert!(!env_bool(Some("nope".to_string()), true));
    assert!(env_bool(None, true));
    assert_eq!(env_usize(Some(" 42 ".to_string()), 7), 42);
    assert_eq!(env_usize(Some("-1".to_string()), 7), 7);
    assert_eq!(env_u64(Some("5000".to_string()), 1), 5000);
    assert_eq!(env_u64(None, 1), 1);
}

#[test]
fn string_config_prefers_env_then_db_then_default() {
    assert_eq!(env_or_db_string(Some(" e ".to_string()), Some("d".to_string())), Some("e".to_string()));
    assert_eq!(env_or_db_string(Some("  ".to_string()), Some("d".to_string())), Some("d".to_string()));
    assert_eq!(resolve_string_config(None, Some(" d ".to_string()), "def"), "d");
    assert_eq!(resolve_string_config(None, Some("  ".to_string()), "def"), "def");
}

#[test]
fn integer_config_is_validated() {
    assert_eq!(read_app_config_i64(Some("-12".to_string())), Some(-12));
    assert_eq!(read_app_config_i64(Some("x".to_string())), None);
    assert_eq!(resolve_i64_config("K", Some(" 9 ".to_string()), Some(3), 1).ok(), Some(9));
    assert_eq!(resolve_i64_config("K", None, Some(3), 1).ok(), Some(3));
    assert_eq!(resolve_i64_config("K", None, None, 1).ok(), Some(1));
    assert!(matches!(resolve_i64_config("K", Some("abc".to_string()), None, 1), Err(BackendError::Validation(_))));
    assert_eq!(env_or_db_i64("K", None, Some(4)).ok(), Some(Some(4)));
    assert!(env_or_db_i64("K", Some("1.5".to_string()), None).is_err());
}

#[test]
fn sync_mode_and_required_settings() {
    assert_eq!(read_notion_sync_mode(Some(" Database ".to_string()), None), "database");
    assert_eq!(read_notion_sync_mode(None, Some("PAGE_TREE".to_string())), "page_tree");
    assert_eq!(read_notion_sync_mode(Some(" ".to_string()), None), "page_tree");
    assert_eq!(required_env("NOTION_TOKEN", Some(" t ".to_string()), None).ok(), Some("t".to_string()));
    assert_eq!(
        required_env("NOTION_TOKEN", None, Some("shell".to_string())).unwrap_err().message(),
        "validation failed: NOTION_TOKEN is required in current process env"
    );
    assert_eq!(required_env("HELPER_DB_PATH", None, Some("/db".to_string())).ok(), Some("/db".to_string()));
    assert_eq!(
        required_env("HELPER_DB_PATH", None, None).unwrap_err().message(),
        "validation failed: HELPER_DB_PATH is required"
    );
}

#[test]
fn smoke_settings_are_clamped() {
    assert_eq!(parse_usize_env(None, 20, 1, 200), 20);
    assert_eq!(parse_usize_env(Some("500"), 20, 1, 200), 200);
    assert_eq!(parse_usize_env(Some("0"), 20, 1, 200), 1);
    assert_eq!(parse_usize_env(Some("x"), 20, 1, 200), 20);
    assert_eq!(parse_u64_env(Some("750"), 400, 0, 5000), 750);
    assert_eq!(parse_u64_env(Some("99999"), 400, 0, 5000), 5000);
}

#[test]
fn smoke_exit_codes() {
    let empty = smoke_report("page_tree", "t".to_string(), SyncRunSummary::start(0), vec![]);
    assert_eq!(smoke_exit_code(&empty), 3);
    let mut summary = SyncRunSummary::start(1);
    summary.record(SyncOutcome::Succeeded);
    let ok = smoke_report("page_tree", "t".to_string(), summary, vec![]);
    assert_eq!(smoke_exit_code(&ok), 0);
}

// ── Sync decisions ──────────────────────────────────────────────────────────

#[test]
fn backoff_doubles_and_is_capped() {
    let p = RetryPolicy { max_attempts: 3 };
    assert_eq!(p.backoff_ms(0), 1000);
    assert_eq!(p.backoff_ms(1), 2000 + 137);
    assert_eq!(p.backoff_ms(2), 4000 + 24);
    assert_eq!(p.backoff_ms(12), 1024 * 1000 + (12 * 137) % 250);
    assert_eq!(p.backoff_ms(50), 1024 * 1000 + (50 * 137) % 250);
}

#[test]
fn upsert_plan_by_stored_key() {
    assert_eq!(plan_upsert_action(None, "k"), (UpsertAction::Create, None));
    assert_eq!(
        plan_upsert_action(Some(("rec".to_string(), "k".to_string())), "k"),
        (UpsertAction::Skip, Some("rec".to_string()))
    );
    assert_eq!(
        plan_upsert_action(Some(("rec".to_string(), "old".to_string())), "k"),
        (UpsertAction::Update, Some("rec".to_string()))
    );
}

#[test]
fn sync_errors_are_classified() {
    assert_eq!(classify_sync_error_code(&BackendError::Internal("HTTP 429 Too Many Requests".to_string())), "MOD-3429");
    assert_eq!(classify_sync_error_code(&BackendError::Internal("rate_limited".to_string())), "MOD-3429");
    assert_eq!(classify_sync_error_code(&BackendError::Internal("timeout".to_string())), "MOD-3002");
    assert!(is_quality_gate_error(&BackendError::Validation("Content quality gate failed: score=2".to_string())));
    assert!(!is_quality_gate_error(&BackendError::Validation("other".to_string())));
}

#[test]
fn timezones_are_checked() {
    assert!(validate_timezone("Asia/Shanghai", 1767024600).is_ok());
    let err = validate_timezone(" Mars/Base ", 1767024600).unwrap_err();
    assert_eq!(err.message(), "validation failed: invalid timezone: Mars/Base");
}

#[test]
fn published_times_are_read() {
    assert_eq!(parse_published_at(Some("2026-01-01T00:00:00Z")), Some(1767225600));
    assert_eq!(parse_published_at(Some("2026-01-01T08:00:00+08:00")), Some(1767225600));
    assert_eq!(parse_published_at(Some(" 2026-01-01 08:00:00 ")), Some(1767225600));
    assert_eq!(parse_published_at(Some("yesterday")), None);
    assert_eq!(parse_published_at(Some("  ")), None);
    assert_eq!(parse_published_at(None), None);
}

#[test]
fn item_week_falls_back_to_now() {
    let (key, title) = item_week_key_and_title(Some("2026-01-01 08:00:00"), 0, "Asia/Shanghai").expect("week");
    assert_eq!(key, "2026-W01");
    assert_eq!(title, "2026年第01周");
    let (key, _) = item_week_key_and_title(Some("unreadable"), 1767024600, "Asia/Shanghai").expect("week");
    assert_eq!(key, "2026-W01");
    assert!(item_week_key_and_title(None, 0, "Nowhere/City").is_err());
}

#[test]
fn node_keys_trim_and_lower() {
    assert_eq!(normalize_key("  Rust 学习 "), "rust 学习");
}

// ── The model ───────────────────────────────────────────────────────────────

#[test]
fn model_call_and_prompt() {
    assert!(qwen_call_needed("key", "text"));
    assert!(!qwen_call_needed(" ", "text"));
    assert!(!qwen_call_needed("key", "  "));
    let p = qwen_prompt(None, "原文");
    assert!(p.contains("route_reason: null。原文如下：\n原文"));
    let p = qwen_prompt(Some("keyword_match"), "x");
    assert!(p.ends_with("route_reason: keyword_match。原文如下：\nx"));
}

#[test]
fn model_reads_the_best_text() {
    assert_eq!(ai_source_text("  raw  text ", "sum", "title", None), "raw text");
    assert_eq!(ai_source_text("-", "sum", "title", Some("page")), "sum page");
    assert_eq!(ai_source_text(" ", " - ", "title", Some("  ")), "title");
    assert!(wants_deep_fetch(true, "xhs", Some("https://x")));
    assert!(!wants_deep_fetch(true, "wechat", Some("https://x")));
    assert!(!wants_deep_fetch(false, "xhs", Some("https://x")));
    assert!(!wants_deep_fetch(true, "xhs", None));
}

// ── Notion properties ───────────────────────────────────────────────────────

#[test]
fn rich_text_reads_plain_or_content() {
    let items = vec![
        obj(vec![("plain_text", s("a"))]),
        obj(vec![("text", obj(vec![("content", s("b"))]))]),
        obj(vec![("other", s("c"))]),
    ];
    assert_eq!(read_rich_text_items(&items), "ab");
    let props = obj(vec![
        ("Summary", obj(vec![("rich_text", JsonValue::Array(vec![obj(vec![("plain_text", s("sum"))])]))])),
        ("Name", obj(vec![("title", JsonValue::Array(vec![obj(vec![("plain_text", s("T"))])]))])),
    ]);
    assert_eq!(read_text_property(&props, "Summary"), "sum");
    assert_eq!(read_title_property(&props, "Name"), "T");
    assert_eq!(read_text_property(&props, "Name"), "");
}

#[test]
fn model_call_limits_follow_the_settings() {
    let l = model_call_limits(None, None, None);
    assert_eq!((l.max_calls_per_run, l.reduced_max_calls_per_run, l.fetch_timeout_ms), (20, 10, 8000));
    let l = model_call_limits(Some("7".to_string()), None, Some("10".to_string()));
    assert_eq!((l.max_calls_per_run, l.reduced_max_calls_per_run, l.fetch_timeout_ms), (7, 4, 1000));
    let l = model_call_limits(Some("0".to_string()), Some("9".to_string()), Some("x".to_string()));
    assert_eq!((l.max_calls_per_run, l.reduced_max_calls_per_run, l.fetch_timeout_ms), (1, 1, 8000));
}

#[test]
fn dead_letters_of_sync_runs() {
    let err = BackendError::Internal("boom".to_string());
    assert_eq!(dead_letter_message("notion_sync", &err), "notion sync failed: internal failed: boom");
    assert_eq!(dead_letter_message("notion_sync_page_tree", &err), "notion page_tree sync failed: internal failed: boom");
    assert_eq!(dead_letter_message("notion_quality_gate", &err), "quality gate failed: internal failed: boom");
    let mut h: u64 = 1469598103934665603;
    for b in "s1|notion_sync|MOD-3002|m".as_bytes() {
        h ^= *b as u64;
        h = h.wrapping_mul(1099511628211);
    }
    assert_eq!(sync_dead_letter_id("s1", "notion_sync", "MOD-3002", "m"), format!("dlq_sync_{:x}", h));
}

#[test]
fn a_page_tree_run_needs_a_root_page() {
    let err = check_root_page_id(" \t").unwrap_err();
    assert_eq!(err.message(), "validation failed: NOTION_ROOT_PAGE_ID is required");
    assert!(check_root_page_id("abc123").is_ok());
}

#[test]
fn a_full_run_attempts_every_item() {
    let outcomes = [SyncOutcome::Succeeded, SyncOutcome::Requeued, SyncOutcome::DeadLettered, SyncOutcome::Succeeded];
    let mut s = SyncRunSummary::start(outcomes.len() as u32);
    for o in outcomes {
        s.record(o);
    }
    assert_eq!(s.attempted, s.scanned);
    assert_eq!(s.succeeded + s.failed, s.attempted);
    assert_eq!(s.requeued + s.dead_lettered, s.failed);
    assert_eq!((s.succeeded, s.requeued, s.dead_lettered), (2, 1, 1));
}
