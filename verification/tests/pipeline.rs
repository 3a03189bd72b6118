use helper_backend::pipeline::analyze::{analyze_text, classify_failure, extract_key_points, normalize_tags, summarize};
use helper_backend::pipeline::normalize::{canonicalize_url, extract_urls, normalize, normalize_ts, NormalizeInput};
use helper_backend::pipeline::queue::{next_retry_delay_ms, should_route_failed_queue, transition, PipelineEvent, PipelineState};

#[test]
fn canonicalize_url_lowercases_and_drops_query() {
    assert_eq!(canonicalize_url("  HTTPS://Example.com/A?x=1 "), "https://example.com/a");
}

#[test]
fn extract_urls_sorts_and_dedups() {
    let urls = extract_urls("see (https://b.com/x?q=1), and http://a.com. also https://B.com/x");
    assert_eq!(urls, vec!["http://a.com".to_string(), "https://b.com/x".to_string()]);
}

#[test]
fn normalize_ts_cuts_at_19_bytes_and_replaces_t() {
    assert_eq!(normalize_ts(Some(" 2026-02-26T10:00:00Z ")).as_deref(), Some("2026-02-26 10:00:00"));
    assert_eq!(normalize_ts(Some("   ")), None);
    assert_eq!(normalize_ts(Some("2026-02")).as_deref(), Some("2026-02"));
    assert_eq!(normalize_ts(None), None);
}

#[test]
fn normalize_collapses_text_and_hashes() {
    let out = normalize(&NormalizeInput {
        source: "wechat".to_string(),
        source_url: String::new(),
        published_at: None,
        collected_at: "2026-02-26 10:00:00".to_string(),
        content_raw: "hello   world https://x.com/a?b=c".to_string(),
    });
    assert_eq!(out.text_clean, "hello world https://x.com/a?b=c");
    assert_eq!(out.canonical_url, "https://x.com/a");
    let mut h: u64 = 1469598103934665603;
    for b in out.text_clean.as_bytes() {
        h ^= *b as u64;
        h = h.wrapping_mul(1099511628211);
    }
    assert_eq!(out.fingerprint, format!("{:x}", h));
}

#[test]
fn retry_policy_matches_formula() {
    assert_eq!(next_retry_delay_ms(0), Some(2000));
    assert_eq!(next_retry_delay_ms(1), Some(4137));
    assert_eq!(next_retry_delay_ms(2), Some(8024));
    assert_eq!(next_retry_delay_ms(3), None);
    assert!(should_route_failed_queue(0, false));
    assert!(!should_route_failed_queue(2, true));
    assert!(should_route_failed_queue(3, true));
    assert_eq!(transition(PipelineState::Queued, PipelineEvent::Start), PipelineState::Processing);
    assert_eq!(transition(PipelineState::Succeeded, PipelineEvent::Start), PipelineState::Succeeded);
}

#[test]
fn analysis_of_text() {
    let a = analyze_text("学习 Rust 与 Notion 工作流。这是第二句话，内容足够长的。");
    assert_eq!(a.tags, vec!["效率工具".to_string(), "后端工程".to_string()]);
    assert_eq!(a.final_category, "学习");
    assert_eq!(a.route_reason, "keyword_match");
    assert_eq!(normalize_tags(&vec![" A ".to_string(), "a".to_string(), "".to_string()]), vec!["A".to_string()]);
    assert_eq!(summarize("a  b   c", 3), "a b");
    assert_eq!(extract_key_points("short", 3), vec!["short".to_string()]);
    let f = classify_failure("MOD-3002", 1);
    assert!(f.retryable);
    assert_eq!(f.next_retry_ms, Some(4137));
    assert!(!f.to_failed_queue);
}

#[test]
fn canonical_urls_hold_no_query() {
    for u in ["https://a.com/x?y=1?z=2", "?only", "plain", " HTTP://B.com/?q "] {
        assert!(!canonicalize_url(u).contains('?'));
    }
    assert_eq!(canonicalize_url("?only"), "");
}

#[test]
fn cleaned_text_is_stable_under_a_second_pass() {
    let first = normalize(&NormalizeInput {
        source: "wechat".to_string(),
        source_url: String::new(),
        published_at: None,
        collected_at: "2026-02-26 10:00:00".to_string(),
        content_raw: " 第一行\t\n 第二行   third\u{3000}line ".to_string(),
    });
    assert_eq!(first.text_clean, "第一行 第二行 third line");
    let second = normalize(&NormalizeInput {
        source: "wechat".to_string(),
        source_url: String::new(),
        published_at: None,
        collected_at: "2026-02-26 10:00:00".to_string(),
        content_raw: first.text_clean.clone(),
    });
    assert_eq!(second.text_clean, first.text_clean);
    assert_eq!(second.fingerprint, first.fingerprint);
    assert_eq!(second.dedupe_key, first.dedupe_key);
}
