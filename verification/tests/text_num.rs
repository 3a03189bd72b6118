use helper_backend::collectors::xhs_feed::{collect_image_urls, first_bool, first_string};
use helper_backend::ipc::non_negative_count;
use helper_backend::json::{json_array, json_bool, JsonValue};
use helper_backend::num::{dec_chars, hex_chars, parse_i64, parse_u32, parse_u64, parse_usize, stable_hash, stable_hash_hex};
use helper_backend::pipeline::normalize::{build_dedupe_key, canonicalize_url_chars};
use helper_backend::sync_notion::content::text_output_chars;
use helper_backend::text::{
    before_char_exec, chars_of, collapse_chars, find_exec, last_index_of_char_exec, slice_chars,
    split_set, string_of, subst_exec, to_lowercase, trim_chars, trim_set, words_of,
};
use helper_backend::collectors::wechat::scan_published_at;
use helper_backend::pipeline::normalize::ts_can_be_cut;

fn fnv(s: &str) -> u64 {
    let mut h: u64 = 1469598103934665603;
    for b in s.as_bytes() {
        h ^= *b as u64;
        h = h.wrapping_mul(1099511628211);
    }
    h
}

fn cs(s: &str) -> Vec<char> {
    s.chars().collect()
}

fn st(v: &Vec<char>) -> String {
    v.iter().collect()
}

fn jstr(v: &str) -> JsonValue {
    JsonValue::Str(v.to_string())
}

fn obj(entries: Vec<(&str, JsonValue)>) -> JsonValue {
    JsonValue::Object(entries.into_iter().map(|(k, v)| (k.to_string(), v)).collect())
}

// ── Numbers ─────────────────────────────────────────────────────────────────

#[test]
fn numbers_are_written_in_decimal_and_hex() {
    assert_eq!(st(&dec_chars(0)), "0");
    assert_eq!(st(&dec_chars(1234567890)), "1234567890");
    assert_eq!(st(&hex_chars(255)), "ff");
    assert_eq!(st(&hex_chars(u64::MAX)), "ffffffffffffffff");
}

#[test]
fn numbers_are_parsed_like_std() {
    assert_eq!(parse_u64("18446744073709551615"), Some(u64::MAX));
    assert_eq!(parse_u64("18446744073709551616"), None);
    assert_eq!(parse_u64("+7"), Some(7));
    assert_eq!(parse_u64(""), None);
    assert_eq!(parse_u64(" 7"), None);
    assert_eq!(parse_u32("4294967296"), None);
    assert_eq!(parse_usize("12"), Some(12));
    assert_eq!(parse_i64("-9223372036854775808"), Some(i64::MIN));
    assert_eq!(parse_i64("-"), None);
    assert_eq!(parse_i64("12a"), None);
}

#[test]
fn stable_hash_is_fnv1a_with_this_offset() {
    assert_eq!(stable_hash("xhs-delay-1"), fnv("xhs-delay-1"));
    assert_eq!(stable_hash(""), 1469598103934665603);
    assert_eq!(st(&stable_hash_hex("标题")), format!("{:x}", fnv("标题")));
}

#[test]
fn counts_are_never_negative() {
    assert_eq!(non_negative_count(-3), 0);
    assert_eq!(non_negative_count(17), 17);
    assert_eq!(non_negative_count(4294967296 + 5), 5);
}

// ── Text ────────────────────────────────────────────────────────────────────

#[test]
fn trimming_and_words() {
    assert_eq!(st(&trim_chars(&cs("\u{3000} a b \n"))), "a b");
    assert_eq!(st(&collapse_chars(&cs("  a \t\n b  "))), "a b");
    let w = words_of(&cs(" one  two\tthree "));
    assert_eq!(w.iter().map(st).collect::<Vec<_>>(), vec!["one", "two", "three"]);
    assert_eq!(st(&trim_set(&cs("((x))."), &cs("()."))), "x");
    let parts = split_set(&cs("a.b..c"), &cs("."));
    assert_eq!(parts.iter().map(st).collect::<Vec<_>>(), vec!["a", "b", "", "c"]);
}

#[test]
fn searching_and_slicing() {
    let hay = cs("abcabc");
    assert_eq!(find_exec(&hay, &cs("ca")), Some(2));
    assert_eq!(find_exec(&hay, &cs("x")), None);
    assert_eq!(last_index_of_char_exec(&hay, 'a'), Some(3));
    assert_eq!(last_index_of_char_exec(&hay, 'z'), None);
    assert_eq!(st(&slice_chars(&hay, 1, 4)), "bca");
    assert_eq!(st(&before_char_exec(&cs("k=v?x"), '?')), "k=v");
    assert_eq!(st(&subst_exec(&cs("a\"b"), &cs("\""), &vec![cs("\\\"")])), "a\\\"b");
}

#[test]
fn lowercase_follows_unicode() {
    assert_eq!(to_lowercase("ÀB"), "àb");
    assert_eq!(string_of(&chars_of("x")), "x");
}

#[test]
fn text_output_cleans_and_cuts() {
    assert_eq!(st(&text_output_chars(&cs(" a\r\nb   c "), 3)), "a b");
}

// ── URLs and keys ───────────────────────────────────────────────────────────

#[test]
fn urls_are_canonical() {
    assert_eq!(st(&canonicalize_url_chars(&cs(" HTTPS://X.com/A?b=1 "))), "https://x.com/a");
}

#[test]
fn dedupe_key_hashes_the_day() {
    let key = build_dedupe_key("xhs", "uh", "fp", Some("2026-02-01T10:00:00Z"), "2026-02-03 00:00:00");
    assert_eq!(key, format!("{:x}", fnv("xhs|uh|fp|2026-02-01")));
    let key = build_dedupe_key("xhs", "uh", "fp", None, "2026-02-03 00:00:00");
    assert_eq!(key, format!("{:x}", fnv("xhs|uh|fp|2026-02-03")));
}

// ── JSON lookups of the feed ────────────────────────────────────────────────

#[test]
fn first_string_and_bool_take_the_first_usable_path() {
    let root = obj(vec![
        ("a", jstr("  ")),
        ("b", obj(vec![("c", jstr(" found "))])),
        ("flag", JsonValue::Bool(false)),
    ]);
    assert_eq!(first_string(&root, &vec!["a", "b.c"]).as_deref(), Some("found"));
    assert_eq!(first_string(&root, &vec!["zz"]), None);
    assert_eq!(first_bool(&root, &vec!["a", "flag"]), Some(false));
    assert_eq!(json_bool(&JsonValue::Bool(true)), Some(true));
    assert!(json_array(&root).is_none());
}

#[test]
fn image_urls_are_gathered_recursively() {
    let v = JsonValue::Array(vec![
        obj(vec![("url", jstr("https://a/1.jpg"))]),
        obj(vec![("nested", obj(vec![("url_default", jstr("http://b/2.png"))]))]),
        jstr("not a link"),
    ]);
    let mut out: Vec<Vec<char>> = Vec::new();
    collect_image_urls(&v, &mut out);
    // A link under a picture key is taken once for the key and once more as
    // one of the object's values.
    assert_eq!(
        out.iter().map(st).collect::<Vec<_>>(),
        vec!["https://a/1.jpg", "https://a/1.jpg", "http://b/2.png", "http://b/2.png"]
    );
}

#[test]
fn timestamps_that_cannot_be_cut_are_found() {
    assert!(ts_can_be_cut("2026-01-01 00:00:00"));
    assert!(ts_can_be_cut("short"));
    // Byte 19 falls inside the three-byte character.
    assert!(!ts_can_be_cut("2026-01-01 00:00:0时"));
    assert_eq!(scan_published_at("no date"), Some(None));
    assert_eq!(scan_published_at("at 2026-01-01T00:00:00"), Some(Some("2026-01-01 00:00:00".to_string())));
    assert_eq!(scan_published_at("2026-01-01 00:00:0时"), None);
}
