use helper_backend::collectors::items::{BiliCollector, CollectWindow, Collector};
use helper_backend::collectors::wechat::{
    build_wechat_item, classify_extension, extraction_error, missing_file_error, readable_kind, clean_extracted_text, detect_published_at,
    map_error_code, parse_wechat_files, strip_html, WechatFileKind,
};
use helper_backend::collectors::xhs::{
    escape_for_applescript, looks_like_html, merge_content, normalize_content_text,
    normalize_profile_item_url, read_env_u32, read_env_u64, should_fallback_to_chrome,
    should_fallback_to_profile_scrape, strip_to_json_start, truncate_chars, within_window,
    FeedKind, XhsCollector,
};
use helper_backend::error::BackendError;
use helper_backend::collectors::xhs::{browser_envelope_body, browser_output};
use helper_backend::collectors::xhs_paging::{feed_page_params, feed_page_step, FeedPosition};
use helper_backend::collectors::xhs_profile::{
    osascript_error, profile_scrape_error, profile_scrape_limits, profile_scrape_output,
    profile_scrape_result, profile_tab_step, ProfileNote,
};

fn fnv(s: &str) -> u64 {
    let mut h: u64 = 1469598103934665603;
    for b in s.as_bytes() {
        h ^= *b as u64;
        h = h.wrapping_mul(1099511628211);
    }
    h
}

// ── WeChat files ────────────────────────────────────────────────────────────

#[test]
fn strip_html_drops_tags_and_collapses_space() {
    assert_eq!(strip_html("<p>Hello   <b>world</b></p>\n<br/>again"), "Hello world again");
    assert_eq!(strip_html("<div></div>"), "");
}

#[test]
fn published_time_is_found_in_the_text() {
    assert_eq!(
        detect_published_at("发布于 2026/02/26 10:00:00 来自").as_deref(),
        Some("2026-02-26 10:00:00")
    );
    assert_eq!(
        detect_published_at("at (2026-02-26T08:30:00Z).").as_deref(),
        Some("2026-02-26 08:30:00")
    );
    assert_eq!(detect_published_at("no time here"), None);
}

#[test]
fn wechat_item_is_keyed_by_url_content_and_time() {
    let content = "see https://Example.com/Post?x=1 published 2026-01-02 03:04:05".to_string();
    let item = build_wechat_item("/tmp/a.txt".to_string(), content.clone(), None);
    assert_eq!(item.source_url.as_deref(), Some("https://example.com/post"));
    assert_eq!(item.published_at.as_deref(), Some("2026-01-02 03:04:05"));
    let raw = format!("https://example.com/post|{}|2026-01-02 03:04:05", fnv(&content));
    assert_eq!(item.dedupe_key, format!("{:x}", fnv(&raw)));

    let plain = build_wechat_item("/tmp/b.txt".to_string(), "just text".to_string(), Some("2026-02-01 00:00:00".to_string()));
    assert_eq!(plain.source_url, None);
    assert_eq!(plain.published_at.as_deref(), Some("2026-02-01 00:00:00"));
}

#[test]
fn error_codes_come_from_the_message() {
    assert_eq!(map_error_code(&BackendError::Validation("ING-1001 file not found: x".to_string())), "ING-1001");
    assert_eq!(map_error_code(&BackendError::Validation("PAR-2001 unsupported".to_string())), "PAR-2001");
    assert_eq!(map_error_code(&BackendError::Internal("boom".to_string())), "IPC-6001");
}

#[test]
fn a_batch_keeps_the_first_of_equal_items() {
    let a = build_wechat_item("/a.txt".to_string(), "same text".to_string(), None);
    let b = build_wechat_item("/b.txt".to_string(), "same text".to_string(), None);
    let c = build_wechat_item("/c.txt".to_string(), "other".to_string(), None);
    let parsed = parse_wechat_files(vec![
        ("/a.txt".to_string(), Ok(a)),
        ("/b.txt".to_string(), Ok(b)),
        ("/x.bin".to_string(), Err(BackendError::Validation("PAR-2001 unsupported extension 'bin': /x.bin".to_string()))),
        ("/c.txt".to_string(), Ok(c)),
    ]);
    assert_eq!(parsed.items.len(), 2);
    assert_eq!(parsed.items[0].path, "/a.txt");
    assert_eq!(parsed.duplicates, 1);
    assert_eq!(parsed.errors.len(), 1);
    assert_eq!(parsed.errors[0].code, "PAR-2001");
    assert!(!parsed.errors[0].retryable);
}

#[test]
fn every_file_of_a_batch_is_counted_once() {
    let texts = ["one", "two", "one", "three", "two", "one"];
    let mut outcomes = Vec::new();
    for (i, t) in texts.iter().enumerate() {
        let path = format!("/f{i}.txt");
        outcomes.push((path.clone(), Ok(build_wechat_item(path, t.to_string(), None))));
    }
    outcomes.push(("/g.pdf".to_string(), Err(BackendError::Validation("ING-1001 file not found: /g.pdf".to_string()))));
    let total = outcomes.len();
    let parsed = parse_wechat_files(outcomes);
    assert_eq!(parsed.items.len() + parsed.duplicates as usize + parsed.errors.len(), total);
    assert_eq!(parsed.items.len(), 3);
    assert_eq!(parsed.duplicates, 3);
    for i in 0..parsed.items.len() {
        for j in i + 1..parsed.items.len() {
            assert_ne!(parsed.items[i].dedupe_key, parsed.items[j].dedupe_key);
        }
    }
}

#[test]
fn extensions_are_classified() {
    assert_eq!(classify_extension("md"), WechatFileKind::PlainText);
    assert_eq!(classify_extension("htm"), WechatFileKind::Html);
    assert_eq!(classify_extension("docx"), WechatFileKind::LocalTool);
    assert_eq!(classify_extension("exe"), WechatFileKind::Unsupported);
    assert_eq!(clean_extracted_text("  a \n b "), Some("a b".to_string()));
    assert_eq!(clean_extracted_text(" \n "), None);
}

// ── Xiaohongshu collector ───────────────────────────────────────────────────

#[test]
fn env_numbers_fall_back_to_defaults() {
    assert_eq!(read_env_u32(Some("12".to_string()), 5), 12);
    assert_eq!(read_env_u32(Some("x".to_string()), 5), 5);
    assert_eq!(read_env_u32(None, 5), 5);
    assert_eq!(read_env_u64(Some("99999999999".to_string()), 1), 99999999999);
    assert_eq!(read_env_u32(Some("99999999999".to_string()), 1), 1);
}

#[test]
fn collector_settings_and_pacing() {
    let c = XhsCollector::with_settings(None, 0, 0, 800, 300, "ua".to_string());
    assert_eq!(c.get_page_size(), 1);
    assert_eq!(c.get_max_pages(), 1);
    let d = c.delay_for(2);
    assert_eq!(d, 300 + fnv("xhs-delay-2") % 501);
    let fixed = XhsCollector::with_settings(None, 20, 3, 400, 400, "ua".to_string());
    assert_eq!(fixed.delay_for(7), 400);
    assert_eq!(FeedKind::Likes.path(), "/api/sns/web/v1/you/likes");
    assert_eq!(FeedKind::Favorites.path(), "/web_api/sns/v1/file/faved/list");
}

#[test]
fn applescript_text_is_escaped() {
    assert_eq!(escape_for_applescript("a\"b\\c\r\nd"), "a\\\"b\\\\c\\r\\nd");
}

#[test]
fn html_and_json_bodies_are_told_apart() {
    assert!(looks_like_html("  <!DOCTYPE html><html>"));
    assert!(looks_like_html("<body>x"));
    assert!(!looks_like_html("{\"a\":1}"));
    assert_eq!(strip_to_json_start(")]}',\n {\"a\":1}"), "{\"a\":1}");
    assert_eq!(strip_to_json_start("garbage [1,2]"), "[1,2]");
    assert_eq!(strip_to_json_start("none"), "none");
}

#[test]
fn item_texts_and_urls() {
    assert_eq!(normalize_content_text("  a \n\t b  "), "a b");
    assert_eq!(
        normalize_profile_item_url(" https://www.xiaohongshu.com/explore/1#comments ", "1"),
        "https://www.xiaohongshu.com/explore/1"
    );
    assert_eq!(normalize_profile_item_url("  ", "9"), "https://www.xiaohongshu.com/explore/9");
    assert_eq!(truncate_chars("标题很长", 2), "标题");
    assert_eq!(merge_content(Some(" T "), Some(" D ")).as_deref(), Some("T\nD"));
    assert_eq!(merge_content(Some("same"), Some(" same ")).as_deref(), Some("same"));
    assert_eq!(merge_content(Some("  "), Some("d")).as_deref(), Some("d"));
    assert_eq!(merge_content(None, None), None);
}

#[test]
fn collect_window_compares_texts() {
    let w = CollectWindow { since: Some("2026-01-01".to_string()), until: Some("2026-01-31".to_string()) };
    assert!(within_window(&w, Some("2026-01-15 10:00:00")));
    assert!(!within_window(&w, Some("2026-02-01 00:00:00")));
    assert!(!within_window(&w, Some("2025-12-31 23:59:59")));
    assert!(within_window(&w, None));
}

#[test]
fn fallback_decisions_read_the_error() {
    assert!(should_fallback_to_chrome(&BackendError::Validation("xhs request rejected: http_status=403".to_string())));
    assert!(should_fallback_to_chrome(&BackendError::Internal("xhs response json decode failed: eof".to_string())));
    assert!(!should_fallback_to_chrome(&BackendError::Storage("http_status=500".to_string())));
    assert!(should_fallback_to_profile_scrape(&BackendError::Validation("create invoker failed".to_string())));
    assert!(should_fallback_to_profile_scrape(&BackendError::Internal("xhs browser body decode failed".to_string())));
    assert!(!should_fallback_to_profile_scrape(&BackendError::Validation("http_status=403".to_string())));
}

// ── Walking a feed ──────────────────────────────────────────────────────────

fn item(id: &str, published: Option<&str>) -> helper_backend::collectors::items::CollectedItem {
    helper_backend::collectors::items::CollectedItem {
        external_id: id.to_string(),
        source_url: format!("https://www.xiaohongshu.com/explore/{id}"),
        title: None,
        content_raw: String::new(),
        published_at: published.map(|p| p.to_string()),
        cover_url: None,
        image_urls: vec![],
    }
}

fn page(items: Vec<helper_backend::collectors::items::CollectedItem>, has_more: Option<bool>, next: Option<&str>) -> helper_backend::collectors::xhs_feed::PageExtract {
    helper_backend::collectors::xhs_feed::PageExtract { items, has_more, next_cursor: next.map(|c| c.to_string()) }
}

#[test]
fn feed_pages_are_queried_by_kind() {
    let pos = FeedPosition { cursor: "c1".to_string(), page: 3 };
    assert_eq!(
        feed_page_params(FeedKind::Likes, 20, &pos),
        vec![("num".to_string(), "20".to_string()), ("cursor".to_string(), "c1".to_string())]
    );
    assert_eq!(
        feed_page_params(FeedKind::Favorites, 20, &pos),
        vec![("page".to_string(), "3".to_string()), ("page_size".to_string(), "20".to_string())]
    );
}

#[test]
fn feed_step_keeps_new_items_in_the_window() {
    let window = CollectWindow { since: Some("2026-01-01".to_string()), until: None };
    let pos = FeedPosition { cursor: "c1".to_string(), page: 1 };
    let mut seen = vec!["old".to_string()];
    let mut out = Vec::new();
    let extracted = page(
        vec![item("old", None), item("a", Some("2026-02-01 00:00:00")), item("b", Some("2025-01-01 00:00:00"))],
        Some(true),
        Some("c2"),
    );
    let next = feed_page_step(FeedKind::Likes, 20, &pos, extracted, &window, &vec![], &mut seen, &mut out);
    assert_eq!(out.len(), 1);
    assert_eq!(out[0].external_id, "a");
    assert_eq!(seen, vec!["old".to_string(), "a".to_string(), "b".to_string()]);
    let next = next.expect("goes on");
    assert_eq!((next.cursor.as_str(), next.page), ("c2", 1));
}

#[test]
fn feed_step_stops_where_told_or_when_done() {
    let window = CollectWindow { since: None, until: None };
    let pos = FeedPosition { cursor: "c1".to_string(), page: 1 };
    let mut seen = Vec::new();
    let mut out = Vec::new();
    let extracted = page(vec![item("a", None), item("stop", None), item("c", None)], Some(true), Some("c2"));
    let next = feed_page_step(FeedKind::Likes, 20, &pos, extracted, &window, &vec!["stop".to_string()], &mut seen, &mut out);
    assert!(next.is_none());
    assert_eq!(out.len(), 1);
    // An unchanged cursor ends the likes feed.
    let extracted = page(vec![item("d", None)], Some(true), Some("c1"));
    assert!(feed_page_step(FeedKind::Likes, 20, &pos, extracted, &window, &vec![], &mut seen, &mut out).is_none());
    // The favourites go on to the next page while a full page came back.
    let full: Vec<_> = (0..2).map(|i| item(&format!("f{i}"), None)).collect();
    let next = feed_page_step(FeedKind::Favorites, 2, &pos, page(full, None, None), &window, &vec![], &mut seen, &mut out);
    assert_eq!(next.map(|p| p.page), Some(2));
    let next = feed_page_step(FeedKind::Favorites, 2, &pos, page(vec![], None, None), &window, &vec![], &mut seen, &mut out);
    assert!(next.is_none());
}

#[test]
fn a_feed_walk_collects_each_item_once() {
    let window = CollectWindow { since: None, until: None };
    let pos = FeedPosition { cursor: "c1".to_string(), page: 1 };
    let mut seen = Vec::new();
    let mut out = Vec::new();
    let first = page(vec![item("a", None), item("b", None), item("a", None)], Some(true), Some("c2"));
    feed_page_step(FeedKind::Likes, 20, &pos, first, &window, &vec![], &mut seen, &mut out);
    let second = page(vec![item("b", None), item("c", None), item("halt", None), item("d", None)], Some(true), Some("c3"));
    feed_page_step(FeedKind::Likes, 20, &pos, second, &window, &vec!["halt".to_string()], &mut seen, &mut out);
    let ids: Vec<&str> = out.iter().map(|i| i.external_id.as_str()).collect();
    assert_eq!(ids, vec!["a", "b", "c"]);
    for i in &out {
        assert!(seen.contains(&i.external_id));
    }
}

// ── Browser fetches and profile scrapes ─────────────────────────────────────

#[test]
fn browser_output_must_hold_a_result() {
    assert_eq!(browser_output("  {\"ok\":true} ").ok(), Some("{\"ok\":true}".to_string()));
    for empty in ["", "  ", "UNDEFINED", "null", "__PENDING__"] {
        let err = browser_output(empty).unwrap_err();
        assert!(err.message().contains("returned empty payload"));
    }
}

#[test]
fn browser_envelopes_are_checked() {
    assert_eq!(
        browser_envelope_body(true, None, Some(" )]}',\n {\"a\":1}".to_string()), None).ok(),
        Some("{\"a\":1}".to_string())
    );
    assert_eq!(
        browser_envelope_body(false, None, None, None).unwrap_err().message(),
        "validation failed: xhs browser fetch failed: unknown"
    );
    assert!(matches!(browser_envelope_body(true, Some(200), None, None), Err(BackendError::Internal(_))));
    assert_eq!(
        browser_envelope_body(true, Some(403), Some("denied".to_string()), None).unwrap_err().message(),
        "validation failed: xhs browser request rejected: http_status=403, body_preview=denied"
    );
    assert!(browser_envelope_body(true, Some(200), Some("  ".to_string()), None).unwrap_err().message().contains("body is empty"));
    assert!(browser_envelope_body(true, Some(200), Some("<html>login</html>".to_string()), None)
        .unwrap_err()
        .message()
        .contains("returned html page"));
}

#[test]
fn osascript_failures_are_told_apart() {
    let e = osascript_error("", " Allow JavaScript from Apple Events is off ");
    assert!(matches!(e, BackendError::Validation(_)));
    let e = osascript_error(" out ", " err ");
    assert_eq!(e.message(), "internal failed: xhs osascript failed: out | err");
    assert_eq!(osascript_error("out", "").message(), "internal failed: xhs osascript failed: out");
}

#[test]
fn profile_scrapes_are_limited_and_checked() {
    assert_eq!(profile_scrape_limits(None, None), (12, 120));
    assert_eq!(profile_scrape_limits(Some("1".to_string()), Some("9999".to_string())), (4, 500));
    assert_eq!(profile_scrape_output(" [] ", "点赞").ok(), Some("[]".to_string()));
    assert_eq!(
        profile_scrape_output("null", "收藏").unwrap_err().message(),
        "validation failed: xhs profile tab scrape empty: tab=收藏"
    );
    assert_eq!(
        profile_scrape_error("点赞", "not_in_profile", Some("x")).message(),
        "validation failed: xhs profile tab scrape failed: tab=点赞, error=not_in_profile, detail=x"
    );
    assert!(profile_scrape_result(vec![]).is_err());
}

#[test]
fn profile_notes_become_items_once() {
    let note = |id: &str, href: &str, text: &str| ProfileNote { id: id.to_string(), href: href.to_string(), text: text.to_string() };
    let notes = vec![
        note(" n1 ", "https://www.xiaohongshu.com/explore/n1#c", "  first   line "),
        note("n1", "", "again"),
        note("  ", "", "blank id"),
        note("stop", "", "told to skip"),
        note("n2", "", ""),
    ];
    let mut seen = Vec::new();
    let mut out = Vec::new();
    profile_tab_step(&notes, &vec!["stop".to_string()], &mut seen, &mut out);
    assert_eq!(seen, vec!["n1".to_string(), "n2".to_string()]);
    assert_eq!(out.len(), 2);
    assert_eq!(out[0].source_url, "https://www.xiaohongshu.com/explore/n1");
    assert_eq!(out[0].title.as_deref(), Some("first line"));
    assert_eq!(out[1].content_raw, "xhs note n2");
    assert_eq!(out[1].source_url, "https://www.xiaohongshu.com/explore/n2");
    assert_eq!(out[1].title, None);
}

#[test]
fn a_second_tab_adds_only_new_notes() {
    let note = |id: &str| ProfileNote { id: id.to_string(), href: String::new(), text: format!("text {id}") };
    let mut seen = Vec::new();
    let mut out = Vec::new();
    profile_tab_step(&vec![note("n1"), note("n2")], &vec![], &mut seen, &mut out);
    profile_tab_step(&vec![note(" n2"), note("n3"), note("n1 "), note("n3")], &vec![], &mut seen, &mut out);
    assert_eq!(seen, vec!["n1".to_string(), "n2".to_string(), "n3".to_string()]);
    let contents: Vec<&str> = out.iter().map(|i| i.content_raw.as_str()).collect();
    assert_eq!(contents.len(), 3);
    assert_eq!(out[2].source_url, "https://www.xiaohongshu.com/explore/n3");
}

#[test]
fn collectors_name_their_source() {
    let bili = BiliCollector { enabled: true };
    assert_eq!(bili.source(), "bili");
    let window = CollectWindow { since: None, until: None };
    assert_eq!(bili.collect(&window).unwrap().len(), 0);
    let xhs = XhsCollector::with_settings(None, 20, 3, 400, 400, "ua".to_string());
    assert_eq!(xhs.source(), "xhs");
}

#[test]
fn unreadable_files_get_their_error_codes() {
    assert_eq!(missing_file_error("/x/a.txt").message(), "validation failed: ING-1001 file not found: /x/a.txt");
    assert_eq!(readable_kind("htm", "/x/a.htm").unwrap(), WechatFileKind::Html);
    let err = readable_kind("exe", "/x/a.exe").unwrap_err();
    assert_eq!(err.message(), "validation failed: PAR-2001 unsupported extension 'exe': /x/a.exe");
    assert_eq!(map_error_code(&err), "PAR-2001");
    assert_eq!(extraction_error("/x/a.pdf", true).message(), "validation failed: PAR-2001 empty extraction for /x/a.pdf");
    assert_eq!(
        extraction_error("/x/a.pdf", false).message(),
        "validation failed: PAR-2001 local extraction failed for /x/a.pdf"
    );
}
