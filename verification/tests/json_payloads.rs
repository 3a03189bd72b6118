use helper_backend::collectors::xhs_feed::{ensure_payload_ok, extract_image_urls, extract_page, normalize_ts, to_collected_item};
use helper_backend::json::{get_path, json_get, json_get_str, json_int, json_item, json_str, json_u64, JsonValue};
use helper_backend::sync_notion::content::{
    extract_json_object_text, qwen_output_step, qwen_reply_content, qwen_usage_tokens, ModelStep,
};
use helper_backend::sync_notion::notion_api::{
    parse_child_pages_from_results, parse_page_snapshot, parse_page_title_from_payload,
    parse_paragraph_block_text, rich_text_item,
};
use helper_backend::sync_notion::payload::{
    clean_string_list, extract_string_list, parse_classification_payload,
    parse_publish_classification_payload, stored_summary_text,
};
use helper_backend::sync_notion::render::{append_category_history, paragraph_block};
use helper_backend::sync_notion::xhs_page::{
    extract_content_attr, extract_html_title, extract_meta_content, extract_meta_property_content,
    xhs_fetch_target, xhs_page_text, xhs_page_windows_fit,
};

fn s(v: &str) -> JsonValue {
    JsonValue::Str(v.to_string())
}

fn num(n: i64) -> JsonValue {
    JsonValue::Number {
        text: n.to_string(),
        integer: Some(n),
        unsigned: if n >= 0 { Some(n as u64) } else { None },
    }
}

fn obj(entries: Vec<(&str, JsonValue)>) -> JsonValue {
    JsonValue::Object(entries.into_iter().map(|(k, v)| (k.to_string(), v)).collect())
}

fn arr(items: Vec<JsonValue>) -> JsonValue {
    JsonValue::Array(items)
}

fn str_field<'a>(v: &'a JsonValue, key: &str) -> Option<&'a str> {
    json_get_str(v, key).map(|s| s.as_str())
}

// ── Xiaohongshu feed pages ──────────────────────────────────────────────────

#[test]
fn extract_page_parses_like_payload() {
    let payload = obj(vec![
        ("success", JsonValue::Bool(true)),
        ("code", num(0)),
        (
            "data",
            obj(vec![
                ("has_more", JsonValue::Bool(true)),
                ("cursor", s("next-c")),
                (
                    "items",
                    arr(vec![obj(vec![
                        ("id", s("abc123")),
                        ("xsec_token", s("token")),
                        ("display_title", s("标题A")),
                        ("desc", s("内容A")),
                        ("publish_time", num(1730000000)),
                        ("cover", obj(vec![("url_default", s("https://img.example.com/cover.jpg"))])),
                        (
                            "image_list",
                            arr(vec![
                                obj(vec![("url_default", s("https://img.example.com/1.jpg"))]),
                                obj(vec![("url_default", s("https://img.example.com/2.jpg"))]),
                            ]),
                        ),
                    ])]),
                ),
            ]),
        ),
    ]);

    let extracted = extract_page(&payload);
    assert_eq!(extracted.items.len(), 1);
    assert_eq!(extracted.items[0].external_id, "abc123");
    assert!(extracted.items[0].source_url.contains("abc123"));
    assert_eq!(
        extracted.items[0].cover_url.as_deref(),
        Some("https://img.example.com/cover.jpg")
    );
    assert_eq!(extracted.items[0].image_urls.len(), 3);
    assert_eq!(extracted.next_cursor.as_deref(), Some("next-c"));
    assert_eq!(extracted.has_more, Some(true));
}

#[test]
fn normalize_ts_supports_epoch_millis() {
    let payload = obj(vec![
        ("success", JsonValue::Bool(true)),
        ("code", num(0)),
        (
            "data",
            obj(vec![(
                "items",
                arr(vec![obj(vec![
                    ("id", s("ts1")),
                    ("xsec_token", s("tok")),
                    ("title", s("t")),
                    ("publish_time", s("1730000000000")),
                ])]),
            )]),
        ),
    ]);
    let extracted = extract_page(&payload);
    let ts = extracted.items[0].published_at.as_deref().expect("ts");
    assert!(ts.starts_with("2024-"));
}

#[test]
fn normalize_ts_formats_epoch_seconds_in_utc() {
    assert_eq!(normalize_ts("1730000000").as_deref(), Some("2024-10-27 03:33:20"));
    assert_eq!(normalize_ts("1730000000000").as_deref(), Some("2024-10-27 03:33:20"));
    assert_eq!(normalize_ts("   ").as_deref(), None);
}

#[test]
fn extract_page_without_items_is_empty() {
    let payload = obj(vec![("success", JsonValue::Bool(true)), ("data", obj(vec![]))]);
    let extracted = extract_page(&payload);
    assert!(extracted.items.is_empty());
    assert_eq!(extracted.has_more, None);
    assert_eq!(extracted.next_cursor, None);
}

#[test]
fn note_without_id_is_skipped() {
    let note = obj(vec![("title", s("no id here"))]);
    assert!(to_collected_item(&note).is_none());
}

#[test]
fn image_urls_are_collected_once_in_order() {
    let root = obj(vec![
        ("cover", obj(vec![("url_default", s("https://img/a.jpg"))])),
        (
            "image_list",
            arr(vec![
                obj(vec![("url_default", s("https://img/a.jpg"))]),
                obj(vec![("url_default", s("https://img/b.jpg"))]),
            ]),
        ),
    ]);
    let urls = extract_image_urls(&root);
    assert_eq!(urls, vec!["https://img/a.jpg".to_string(), "https://img/b.jpg".to_string()]);
}

#[test]
fn failed_payload_is_an_error() {
    let bad = obj(vec![("success", JsonValue::Bool(false)), ("code", num(-100)), ("msg", s("login"))]);
    assert!(ensure_payload_ok(&bad).is_err());
    let good = obj(vec![("success", JsonValue::Bool(true)), ("code", num(0))]);
    assert!(ensure_payload_ok(&good).is_ok());
}

// ── Reading JSON ────────────────────────────────────────────────────────────

#[test]
fn json_readers_follow_paths() {
    let root = obj(vec![("a", obj(vec![("b", num(7)), ("list", arr(vec![num(1)]))]))]);
    assert_eq!(get_path(&root, "a.b").and_then(json_int), Some(7));
    assert_eq!(get_path(&root, "a.b").and_then(json_u64), Some(7));
    assert!(get_path(&root, "a.c").is_none());
    assert!(get_path(&root, "a.list.0").is_none());
    assert!(json_get(&root, "missing").is_none());
    assert_eq!(str_field(&obj(vec![("k", s("v"))]), "k"), Some("v"));
}

// ── Notion replies ──────────────────────────────────────────────────────────

#[test]
fn parse_page_snapshot_reads_expected_fields() {
    let page = obj(vec![
        ("id", s("page_1")),
        (
            "properties",
            obj(vec![
                ("NormalizedItemID", obj(vec![("rich_text", arr(vec![obj(vec![("plain_text", s("norm_abc"))])]))])),
                ("Title", obj(vec![("title", arr(vec![obj(vec![("plain_text", s("backend title"))])]))])),
                ("Summary", obj(vec![("rich_text", arr(vec![obj(vec![("plain_text", s("summary text"))])]))])),
                ("Source", obj(vec![("select", obj(vec![("name", s("wechat"))]))])),
                ("SourceURL", obj(vec![("url", s("https://example.com/x"))])),
            ]),
        ),
    ]);

    let snapshot = parse_page_snapshot(&page).expect("parse snapshot");
    assert_eq!(snapshot.page_id, "page_1");
    assert_eq!(snapshot.normalized_item_id, "norm_abc");
    assert_eq!(snapshot.title, "backend title");
    assert_eq!(snapshot.summary, "summary text");
    assert_eq!(snapshot.source, "wechat");
    assert_eq!(snapshot.source_url.as_deref(), Some("https://example.com/x"));
}

#[test]
fn parse_page_snapshot_requires_an_id() {
    let page = obj(vec![("properties", obj(vec![]))]);
    assert!(parse_page_snapshot(&page).is_err());
}

#[test]
fn parse_child_pages_ignores_non_page_blocks() {
    let results = vec![
        obj(vec![("id", s("block_1")), ("type", s("paragraph"))]),
        obj(vec![
            ("id", s("page_1")),
            ("type", s("child_page")),
            ("child_page", obj(vec![("title", s("Inbox"))])),
        ]),
    ];
    let pages = parse_child_pages_from_results(&results);
    assert_eq!(pages.len(), 1);
    assert_eq!(pages[0].page_id, "page_1");
    assert_eq!(pages[0].title, "Inbox");
}

#[test]
fn parse_page_title_from_payload_uses_first_non_empty_title_property() {
    let payload = obj(vec![(
        "properties",
        obj(vec![
            ("Name", obj(vec![("title", arr(vec![obj(vec![("plain_text", s("Tree Item Title"))])]))])),
            ("Other", obj(vec![("rich_text", arr(vec![]))])),
        ]),
    )]);
    let title = parse_page_title_from_payload(&payload).expect("parse page title");
    assert_eq!(title, "Tree Item Title");
}

#[test]
fn parse_paragraph_block_text_reads_plain_text() {
    let block = obj(vec![
        ("type", s("paragraph")),
        ("paragraph", obj(vec![("rich_text", arr(vec![obj(vec![("plain_text", s("hello metadata"))])]))])),
    ]);
    let text = parse_paragraph_block_text(&block).expect("parse paragraph");
    assert_eq!(text, "hello metadata");
}

#[test]
fn parse_paragraph_block_text_rejects_non_paragraph() {
    let block = obj(vec![
        ("type", s("heading_1")),
        ("heading_1", obj(vec![("rich_text", arr(vec![obj(vec![("plain_text", s("h1"))])]))])),
    ]);
    let err = parse_paragraph_block_text(&block).expect_err("should reject");
    assert!(err.message().contains("not paragraph"));
}

#[test]
fn paragraph_block_holds_its_text() {
    let block = paragraph_block("hello");
    assert_eq!(str_field(&block, "object"), Some("block"));
    assert_eq!(str_field(&block, "type"), Some("paragraph"));
    assert_eq!(parse_paragraph_block_text(&block).map(|_| ()).is_ok(), true);
    let list = get_path(&block, "paragraph.rich_text").expect("rich text");
    let item = json_item(list, 0).expect("item");
    let content = get_path(item, "text.content").map(clone_str);
    assert_eq!(content.as_ref().and_then(|v| json_str(v)).map(|t| t.as_str()), Some("hello"));
    let piece = rich_text_item("x");
    assert_eq!(str_field(&piece, "type"), Some("text"));
}

fn clone_str(v: &JsonValue) -> JsonValue {
    match v {
        JsonValue::Str(t) => JsonValue::Str(t.clone()),
        _ => JsonValue::Null,
    }
}

#[test]
fn category_history_grows_only_on_a_change() {
    let history = vec![obj(vec![("from", s("A")), ("to", s("B")), ("at", s("t0"))])];
    let same = append_category_history(history, Some("b"), "B", "t1");
    assert_eq!(same.len(), 1);
    let grown = append_category_history(same, Some("B"), "C", "t2");
    assert_eq!(grown.len(), 2);
    assert_eq!(str_field(&grown[1], "from"), Some("B"));
    assert_eq!(str_field(&grown[1], "to"), Some("C"));
    assert_eq!(str_field(&grown[1], "at"), Some("t2"));
    let none = append_category_history(grown, None, "D", "t3");
    assert_eq!(none.len(), 2);
}

// ── Model replies and classification payloads ──────────────────────────────

#[test]
fn json_object_text_is_cut_out_of_a_reply() {
    assert_eq!(extract_json_object_text("  {\"a\":1}  ").as_deref(), Some("{\"a\":1}"));
    assert_eq!(
        extract_json_object_text("Here: {\"a\":{\"b\":2}} done").as_deref(),
        Some("{\"a\":{\"b\":2}}")
    );
    assert_eq!(extract_json_object_text("no object"), None);
    assert_eq!(extract_json_object_text("} before {"), None);
}

#[test]
fn qwen_reply_content_and_usage_are_read() {
    let envelope = obj(vec![
        (
            "choices",
            arr(vec![obj(vec![("message", obj(vec![("content", s("{\"summary\":\"s\"}"))]))])]),
        ),
        ("usage", obj(vec![("prompt_tokens", num(120)), ("completion_tokens", num(30))])),
    ]);
    assert_eq!(qwen_reply_content(&envelope), "{\"summary\":\"s\"}");
    assert_eq!(qwen_usage_tokens(&envelope), Some((120, 30)));
    assert_eq!(qwen_reply_content(&obj(vec![])), "");
}

#[test]
fn qwen_output_reads_summary_and_lists() {
    let payload = obj(vec![
        ("summary", s("  short  ")),
        ("key_points", arr(vec![s(" a "), s(""), s("b")])),
        ("tags", arr(vec![s("t")])),
    ]);
    match qwen_output_step(&payload) {
        ModelStep::Output { summary, key_points, tags, .. } => {
            assert_eq!(summary, "short");
            assert_eq!(key_points, vec!["a".to_string(), "b".to_string()]);
            assert_eq!(tags, vec!["t".to_string()]);
        }
        _ => panic!("expected model output"),
    }
}

#[test]
fn string_lists_keep_trimmed_non_empty_texts() {
    let list = arr(vec![s(" x "), num(3), s("  "), s("y")]);
    assert_eq!(extract_string_list(Some(&list)), vec!["x".to_string(), "y".to_string()]);
    assert!(extract_string_list(None).is_empty());
    assert_eq!(clean_string_list(Some(vec![" a ".to_string(), "".to_string()])), Some(vec!["a".to_string()]));
    assert_eq!(clean_string_list(Some(vec!["  ".to_string()])), None);
}

#[test]
fn classification_payload_reads_object_or_array() {
    let parsed = obj(vec![
        ("summary", s(" sum ")),
        ("key_points", arr(vec![s("k1")])),
        ("tags", arr(vec![s("t1"), s("t2")])),
    ]);
    let out = parse_classification_payload(Some(&parsed));
    assert_eq!(out.tags, vec!["t1".to_string(), "t2".to_string()]);
    let list = arr(vec![s("only")]);
    let out = parse_classification_payload(Some(&list));
    assert_eq!(out.tags, vec!["only".to_string()]);
    let out = parse_publish_classification_payload(Some(&list));
    assert_eq!(out.tags, Some(vec!["only".to_string()]));
    assert_eq!(stored_summary_text("  ".to_string()), "-");
    assert_eq!(stored_summary_text("kept".to_string()), "kept");
}

// ── Xiaohongshu pages ───────────────────────────────────────────────────────

#[test]
fn xhs_fetch_target_accepts_only_xiaohongshu_links() {
    assert_eq!(
        xhs_fetch_target("  https://www.xiaohongshu.com/explore/1 ").as_deref(),
        Some("https://www.xiaohongshu.com/explore/1")
    );
    assert_eq!(xhs_fetch_target("https://example.com"), None);
    assert_eq!(xhs_fetch_target("   "), None);
}

#[test]
fn page_text_joins_title_and_descriptions() {
    let html = "<html><head><title>  Note   title </title>\
<meta name=\"description\" content=\"first desc\">\
<meta property=\"og:description\" content='og desc'></head></html>";
    assert!(xhs_page_windows_fit(html));
    assert_eq!(extract_html_title(html).as_deref(), Some("Note title"));
    assert_eq!(extract_meta_content(html, "description").as_deref(), Some("first desc"));
    assert_eq!(extract_meta_property_content(html, "og:description").as_deref(), Some("og desc"));
    assert_eq!(xhs_page_text(html).as_deref(), Some("Note title first desc og desc"));
    assert_eq!(xhs_page_text("<html></html>"), None);
}

#[test]
fn content_attr_stops_at_an_unclosed_value() {
    let slice: Vec<char> = "name=\"x\" content=\"never closed".chars().collect();
    assert_eq!(extract_content_attr(&slice, 512), None);
    let slice: Vec<char> = "name=\"x\" content=\"\" content='second'".chars().collect();
    assert_eq!(extract_content_attr(&slice, 512).as_deref(), Some("second"));
    let slice: Vec<char> = "name=\"x\"                content=\"late\"".chars().collect();
    assert_eq!(extract_content_attr(&slice, 10), None);
}
