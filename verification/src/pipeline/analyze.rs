//! Rule-based content analysis: labels, tags, summary, key points and the
//! final category of a text, and the classification of model failures.

use vstd::prelude::*;
use crate::pipeline::score::GateBucket;
use crate::pipeline::queue::{next_retry_delay_ms, retry_delay, routes_to_failed_queue, should_route_failed_queue};
use crate::text::{
    byte_len, chars_list, chars_of, collapse_chars, collapse_ws, contains_any, contains_any_exec,
    in_set, list_contains, lit, lowercase, lowercase_chars, push_lit, split_by, split_set,
    str_eq, string_of, string_views, strings_of, take_chars, take_prefix, trim, trim_chars,
    views,
};

verus! {

/// What the pipeline does with a failed model call.
#[derive(Debug, Clone)]
pub struct AnalysisFailure {
    pub error_code: String,
    pub retryable: bool,
    pub next_retry_ms: Option<u64>,
    pub to_failed_queue: bool,
}

/// The model errors that are worth retrying.
pub open spec fn is_retryable_model_error(code: Seq<char>) -> bool {
    code == "MOD-3001"@ || code == "MOD-3002"@ || code == "MOD-3003"@
}

/// A retryable failure waits for its retry delay; every failure whose
/// retries are used up, or which cannot be retried, goes to the failed queue.
pub fn classify_failure(error_code: &str, attempt: u32) -> (r: AnalysisFailure)
    ensures
        r.error_code@ == error_code@,
        r.retryable == is_retryable_model_error(error_code@),
        r.next_retry_ms == (if r.retryable {
            retry_delay(attempt)
        } else {
            None
        }),
        r.to_failed_queue == routes_to_failed_queue(attempt, r.retryable),
{
    let retryable = str_eq(error_code, "MOD-3001") || str_eq(error_code, "MOD-3002") || str_eq(
        error_code,
        "MOD-3003",
    );
    let next_retry_ms = if retryable {
        next_retry_delay_ms(attempt)
    } else {
        None
    };
    let to_failed_queue = should_route_failed_queue(attempt, retryable);
    AnalysisFailure {
        error_code: crate::text::str_to_string(error_code),
        retryable,
        next_retry_ms,
        to_failed_queue,
    }
}

// ── Labels and tags ─────────────────────────────────────────────────────────

pub open spec fn kw_efficiency() -> Seq<Seq<char>> {
    seq!["notion"@, "效率"@, "工作流"@]
}

pub open spec fn kw_backend() -> Seq<Seq<char>> {
    seq!["rust"@, "tauri"@, "sql"@]
}

pub open spec fn kw_collection() -> Seq<Seq<char>> {
    seq!["微信"@, "小红书"@, "b站"@]
}

pub open spec fn unclassified() -> Seq<char> {
    "未分类"@
}

/// The labels that the keywords of the lower-cased text give, in a fixed
/// order, or the unclassified label when none applies.
pub open spec fn inferred_labels(text: Seq<char>) -> Seq<Seq<char>> {
    let low = lowercase(text);
    let a: Seq<Seq<char>> = if contains_any(low, kw_efficiency()) {
        seq!["效率工具"@]
    } else {
        Seq::empty()
    };
    let b = if contains_any(low, kw_backend()) {
        a.push("后端工程"@)
    } else {
        a
    };
    let c = if contains_any(low, kw_collection()) {
        b.push("内容采集"@)
    } else {
        b
    };
    if c.len() == 0 {
        seq![unclassified()]
    } else {
        c
    }
}

fn keywords3(a: &str, b: &str, c: &str) -> (r: Vec<Vec<char>>)
    ensures
        views(r@) == seq![a@, b@, c@],
{
    let mut r: Vec<Vec<char>> = Vec::new();
    push_lit(&mut r, a);
    push_lit(&mut r, b);
    push_lit(&mut r, c);
    proof {
        assert(views(r@) =~= seq![a@, b@, c@]);
    }
    r
}

pub fn infer_labels(text: &str) -> (r: Vec<String>)
    ensures
        string_views(r@) == inferred_labels(text@),
{
    let low = lowercase_chars(&chars_of(text));
    let mut labels: Vec<Vec<char>> = Vec::new();
    if contains_any_exec(&low, &keywords3("notion", "效率", "工作流")) {
        push_lit(&mut labels, "效率工具");
    }
    if contains_any_exec(&low, &keywords3("rust", "tauri", "sql")) {
        push_lit(&mut labels, "后端工程");
    }
    if contains_any_exec(&low, &keywords3("微信", "小红书", "b站")) {
        push_lit(&mut labels, "内容采集");
    }
    if labels.len() == 0 {
        push_lit(&mut labels, "未分类");
    }
    proof {
        let low_s = lowercase(text@);
        let a: Seq<Seq<char>> = if contains_any(low_s, kw_efficiency()) {
            seq!["效率工具"@]
        } else {
            Seq::empty()
        };
        assert(a.len() == 0 || a =~= Seq::<Seq<char>>::empty().push("效率工具"@));
        assert(views(labels@) =~= inferred_labels(text@));
    }
    strings_of(&labels)
}

/// The key under which two labels count as the same tag.
pub open spec fn tag_key(label: Seq<char>) -> Seq<char> {
    lowercase(trim(label))
}

/// Some label before position `i` has the key `key`.
pub open spec fn key_seen_before(labels: Seq<Seq<char>>, i: int, key: Seq<char>) -> bool {
    exists|j: int| 0 <= j < i && tag_key(#[trigger] labels[j]) == key
}

/// The trimmed labels whose key is not empty and not seen earlier, in order.
pub open spec fn distinct_tags(labels: Seq<Seq<char>>) -> Seq<Seq<char>>
    decreases labels.len(),
{
    if labels.len() == 0 {
        Seq::empty()
    } else {
        let prev = distinct_tags(labels.drop_last());
        let key = tag_key(labels.last());
        if key.len() == 0 || key_seen_before(labels, labels.len() - 1, key) {
            prev
        } else {
            prev.push(trim(labels.last()))
        }
    }
}

/// At most six distinct tags, or the unclassified tag when there are none.
pub open spec fn normalized_tags(labels: Seq<Seq<char>>) -> Seq<Seq<char>> {
    let t = distinct_tags(labels);
    if t.len() == 0 {
        seq![unclassified()]
    } else {
        take_seq(t, 6)
    }
}

/// The first `n` elements of `s`, or all of them.
pub open spec fn take_seq<A>(s: Seq<A>, n: int) -> Seq<A> {
    if n < s.len() {
        s.take(n)
    } else {
        s
    }
}

pub fn normalize_tags(labels: &Vec<String>) -> (r: Vec<String>)
    ensures
        string_views(r@) == normalized_tags(string_views(labels@)),
{
    let ls = chars_list(labels);
    let ghost lv = string_views(labels@);
    let mut keys: Vec<Vec<char>> = Vec::new();
    let mut out: Vec<Vec<char>> = Vec::new();
    let mut i: usize = 0;
    while i < ls.len()
        invariant
            i <= ls.len(),
            views(ls@) == lv,
            views(out@) == distinct_tags(lv.take(i as int)),
            forall|key: Seq<char>| #[trigger]
                views(keys@).contains(key) <==> (key.len() > 0 && key_seen_before(
                    lv,
                    i as int,
                    key,
                )),
        decreases ls.len() - i,
    {
        proof {
            assert(views(ls@)[i as int] == ls@[i as int]@);
            assert(lv.take(i + 1).drop_last() =~= lv.take(i as int));
            assert(lv.take(i + 1).last() == lv[i as int]);
            assert forall|j: int| 0 <= j < i implies lv.take(i + 1)[j] == lv[j] by {}
        }
        let trimmed = trim_chars(&ls[i]);
        let key = lowercase_chars(&trimmed);
        let ghost keys_before = views(keys@);
        if key.len() == 0 || list_contains(&keys, &key) {
            proof {
                assert(key_seen_before(lv.take(i + 1), i as int, key@) <==> key_seen_before(
                    lv,
                    i as int,
                    key@,
                )) by {
                    if key_seen_before(lv, i as int, key@) {
                        let j = choose|j: int| 0 <= j < i && tag_key(lv[j]) == key@;
                        assert(lv.take(i + 1)[j] == lv[j]);
                    }
                    if key_seen_before(lv.take(i + 1), i as int, key@) {
                        let j = choose|j: int| 0 <= j < i && tag_key(#[trigger] lv.take(i + 1)[j]) == key@;
                        assert(lv.take(i + 1)[j] == lv[j]);
                    }
                }
                assert forall|k: Seq<char>| #[trigger]
                    views(keys@).contains(k) <==> (k.len() > 0 && key_seen_before(
                        lv,
                        i + 1,
                        k,
                    )) by {
                    if key_seen_before(lv, i + 1, k) && !key_seen_before(lv, i as int, k) {
                        let j = choose|j: int| 0 <= j < i + 1 && tag_key(lv[j]) == k;
                        assert(j == i);
                    }
                    if key_seen_before(lv, i as int, k) {
                        let j = choose|j: int| 0 <= j < i && tag_key(lv[j]) == k;
                        assert(key_seen_before(lv, i + 1, k));
                    }
                }
            }
        } else {
            let ghost out_before = views(out@);
            out.push(trimmed);
            keys.push(key);
            proof {
                assert(views(out@) =~= out_before.push(trim(lv[i as int])));
                assert(views(keys@) =~= keys_before.push(tag_key(lv[i as int])));
                assert(!key_seen_before(lv.take(i + 1), i as int, key@)) by {
                    if key_seen_before(lv.take(i + 1), i as int, key@) {
                        let j = choose|j: int| 0 <= j < i && tag_key(#[trigger] lv.take(i + 1)[j]) == key@;
                        assert(lv.take(i + 1)[j] == lv[j]);
                        assert(key_seen_before(lv, i as int, key@));
                    }
                }
                assert forall|k: Seq<char>| #[trigger]
                    views(keys@).contains(k) <==> (k.len() > 0 && key_seen_before(
                        lv,
                        i + 1,
                        k,
                    )) by {
                    if views(keys@).contains(k) {
                        if k == key@ {
                            assert(tag_key(lv[i as int]) == k);
                        } else {
                            assert(keys_before.contains(k)) by {
                                let m = choose|m: int| 0 <= m < views(keys@).len() && views(keys@)[m] == k;
                                assert(m < keys_before.len());
                                assert(keys_before[m] == k);
                            }
                        }
                    }
                    if key_seen_before(lv, i + 1, k) && k.len() > 0 {
                        let j = choose|j: int| 0 <= j < i + 1 && tag_key(lv[j]) == k;
                        if j == i {
                            assert(views(keys@)[views(keys@).len() - 1] == k);
                        } else {
                            assert(key_seen_before(lv, i as int, k));
                            assert(keys_before.contains(k));
                            let m = choose|m: int| 0 <= m < keys_before.len() && keys_before[m] == k;
                            assert(views(keys@)[m] == k);
                        }
                    }
                }
            }
        }
        i = i + 1;
    }
    proof {
        assert(lv.take(ls.len() as int) =~= lv);
    }
    if out.len() == 0 {
        push_lit(&mut out, "未分类");
        proof {
            assert(views(out@) =~= seq![unclassified()]);
        }
    } else if out.len() > 6 {
        out.truncate(6);
        proof {
            assert(views(out@) =~= views(out@).take(6));
        }
    }
    strings_of(&out)
}

// ── Summary and key points ──────────────────────────────────────────────────

/// The text with white space collapsed, cut to `max_chars` characters.
pub open spec fn summary_of(text: Seq<char>, max_chars: int) -> Seq<char> {
    take_chars(collapse_ws(text), max_chars)
}

pub fn summarize(text: &str, max_chars: usize) -> (r: String)
    ensures
        r@ == summary_of(text@, max_chars as int),
{
    let cleaned = collapse_chars(&chars_of(text));
    string_of(&take_prefix(&cleaned, max_chars))
}

/// The characters that end a sentence.
pub open spec fn sentence_ends() -> Seq<char> {
    seq!['\n', '。', '！', '!', '?', '？']
}

/// The sentences of a text.
pub open spec fn sentences(text: Seq<char>) -> Seq<Seq<char>> {
    split_by(text, in_set(sentence_ends()))
}

/// The key points gathered from the first sentences: each sentence whose
/// collapsed text has at least 8 bytes gives its first 80 characters, until
/// `max_points` points are gathered (at least one is taken).
pub open spec fn points_of(chunks: Seq<Seq<char>>, max_points: int) -> Seq<Seq<char>>
    decreases chunks.len(),
{
    if chunks.len() == 0 {
        Seq::empty()
    } else {
        let prev = points_of(chunks.drop_last(), max_points);
        let cleaned = trim(collapse_ws(chunks.last()));
        if prev.len() > 0 && prev.len() >= max_points {
            prev
        } else if byte_len(cleaned) < 8 {
            prev
        } else {
            prev.push(take_chars(cleaned, 80))
        }
    }
}

/// The key points of a text, or its 80-character summary when it has none.
pub open spec fn key_points_of(text: Seq<char>, max_points: int) -> Seq<Seq<char>> {
    let p = points_of(sentences(text), max_points);
    if p.len() == 0 {
        seq![summary_of(text, 80)]
    } else {
        p
    }
}

/// Whether the UTF-8 length of `v` is below `n`.
fn byte_len_below(v: &Vec<char>, n: usize) -> (r: bool)
    requires
        n <= 64,
    ensures
        r == (byte_len(v@) < n),
{
    let mut acc: usize = 0;
    let mut k: usize = 0;
    while k < v.len() && acc < n
        invariant
            k <= v.len(),
            acc == byte_len(v@.take(k as int)),
            acc <= n + 3,
            n <= 64,
        decreases v.len() - k,
    {
        proof {
            crate::text::lemma_byte_len_take_succ(v@, k as int);
        }
        acc = acc + crate::text::utf8_len_exec(v[k]);
        k = k + 1;
    }
    proof {
        if k < v.len() {
            crate::text::lemma_byte_len_take_strict(v@, k as int, v@.len() as int);
        }
        assert(v@.take(v@.len() as int) =~= v@);
    }
    acc < n
}

fn sentence_ends_exec() -> (r: Vec<char>)
    ensures
        r@ == sentence_ends(),
{
    let mut r: Vec<char> = Vec::new();
    r.push('\n');
    r.push('。');
    r.push('！');
    r.push('!');
    r.push('?');
    r.push('？');
    proof {
        assert(r@ =~= sentence_ends());
    }
    r
}

pub fn extract_key_points(text: &str, max_points: usize) -> (r: Vec<String>)
    ensures
        string_views(r@) == key_points_of(text@, max_points as int),
{
    let tv = chars_of(text);
    let chunks = split_set(&tv, &sentence_ends_exec());
    let ghost cs = views(chunks@);
    let mut points: Vec<Vec<char>> = Vec::new();
    let mut i: usize = 0;
    while i < chunks.len()
        invariant
            i <= chunks.len(),
            cs == views(chunks@),
            cs == sentences(tv@),
            views(points@) == points_of(cs.take(i as int), max_points as int),
            points@.len() > 0 && points@.len() >= max_points ==> points_of(cs, max_points as int)
                == views(points@),
        decreases chunks.len() - i,
    {
        proof {
            assert(cs.take(i + 1).drop_last() =~= cs.take(i as int));
            assert(cs.take(i + 1).last() == chunks@[i as int]@);
        }
        if points.len() > 0 && points.len() >= max_points {
            proof {
                lemma_points_stable(cs, i as int, max_points as int);
            }
            i = i + 1;
        } else {
            let cleaned = trim_chars(&collapse_chars(&chunks[i]));
            if !byte_len_below(&cleaned, 8) {
                let ghost before = views(points@);
                points.push(take_prefix(&cleaned, 80));
                proof {
                    assert(views(points@) =~= before.push(views(points@).last()));
                }
            }
            i = i + 1;
            proof {
                if points@.len() > 0 && points@.len() >= max_points {
                    lemma_points_stable(cs, i as int, max_points as int);
                }
            }
        }
    }
    proof {
        assert(cs.take(chunks.len() as int) =~= cs);
    }
    if points.len() == 0 {
        let s = summarize(text, 80);
        points.push(chars_of(s.as_str()));
        proof {
            assert(views(points@) =~= seq![summary_of(text@, 80)]);
        }
    }
    strings_of(&points)
}

/// Once enough key points are gathered, later sentences change nothing.
proof fn lemma_points_stable(cs: Seq<Seq<char>>, i: int, max_points: int)
    requires
        0 <= i <= cs.len(),
        points_of(cs.take(i), max_points).len() > 0,
        points_of(cs.take(i), max_points).len() >= max_points,
    ensures
        points_of(cs, max_points) == points_of(cs.take(i), max_points),
    decreases cs.len() - i,
{
    if i == cs.len() {
        assert(cs.take(i) =~= cs);
    } else {
        assert(cs.take(i + 1).drop_last() =~= cs.take(i));
        lemma_points_stable(cs, i + 1, max_points);
    }
}

// ── Final category ──────────────────────────────────────────────────────────

pub open spec fn kw_study() -> Seq<Seq<char>> {
    seq!["学习"@, "读书"@, "课程"@, "知识"@, "rust"@, "tauri"@]
}

pub open spec fn kw_work() -> Seq<Seq<char>> {
    seq!["工作"@, "效率"@, "notion"@, "会议"@, "项目"@]
}

pub open spec fn kw_health() -> Seq<Seq<char>> {
    seq!["健康"@, "运动"@, "睡眠"@, "减脂"@]
}

pub open spec fn kw_finance() -> Seq<Seq<char>> {
    seq!["理财"@, "基金"@, "股票"@, "预算"@, "财务"@]
}

pub open spec fn kw_idea() -> Seq<Seq<char>> {
    seq!["灵感"@, "创意"@, "想法"@]
}

pub open spec fn kw_life() -> Seq<Seq<char>> {
    seq!["生活"@, "家居"@, "旅行"@, "美食"@]
}

/// The category of a text and the reason for it: the first keyword group
/// that the lower-cased text matches, else the inbox, marked as a fallback
/// that had a usable tag or not.
pub open spec fn final_category(text: Seq<char>, tags: Seq<Seq<char>>) -> (Seq<char>, Seq<char>) {
    let low = lowercase(text);
    if contains_any(low, kw_study()) {
        ("学习"@, "keyword_match"@)
    } else if contains_any(low, kw_work()) {
        ("工作"@, "keyword_match"@)
    } else if contains_any(low, kw_health()) {
        ("健康"@, "keyword_match"@)
    } else if contains_any(low, kw_finance()) {
        ("财务"@, "keyword_match"@)
    } else if contains_any(low, kw_idea()) {
        ("灵感"@, "keyword_match"@)
    } else if contains_any(low, kw_life()) {
        ("生活"@, "keyword_match"@)
    } else if tags.len() > 0 && tags[0] != unclassified() {
        ("Inbox"@, "fallback_tag_unmapped"@)
    } else {
        ("Inbox"@, "fallback_default"@)
    }
}

/// An item's category follows the keywords its lower-cased text mentions,
/// in this order of precedence: study (学习, 读书, 课程, 知识, rust, tauri),
/// work (工作, 效率, notion, 会议, 项目), health (健康, 运动, 睡眠, 减脂),
/// finance (理财, 基金, 股票, 预算, 财务), ideas (灵感, 创意, 想法) and life
/// (生活, 家居, 旅行, 美食), each matched as a keyword; a text that mentions
/// none goes to the inbox, marked by whether its first tag was usable
/// (not 未分类).
pub proof fn law_category_follows_keywords(text: Seq<char>, tags: Seq<Seq<char>>)
    ensures
        ({
            let low = lowercase(text);
            let study = contains_any(low, seq!["学习"@, "读书"@, "课程"@, "知识"@, "rust"@, "tauri"@]);
            let work = contains_any(low, seq!["工作"@, "效率"@, "notion"@, "会议"@, "项目"@]);
            let health = contains_any(low, seq!["健康"@, "运动"@, "睡眠"@, "减脂"@]);
            let finance = contains_any(low, seq!["理财"@, "基金"@, "股票"@, "预算"@, "财务"@]);
            let idea = contains_any(low, seq!["灵感"@, "创意"@, "想法"@]);
            let life = contains_any(low, seq!["生活"@, "家居"@, "旅行"@, "美食"@]);
            let c = final_category(text, tags);
            &&& study ==> c == ("学习"@, "keyword_match"@)
            &&& !study && work ==> c == ("工作"@, "keyword_match"@)
            &&& !study && !work && health ==> c == ("健康"@, "keyword_match"@)
            &&& !study && !work && !health && finance ==> c == ("财务"@, "keyword_match"@)
            &&& !study && !work && !health && !finance && idea ==> c == ("灵感"@, "keyword_match"@)
            &&& !study && !work && !health && !finance && !idea && life ==> c == ("生活"@,
                "keyword_match"@)
            &&& !study && !work && !health && !finance && !idea && !life ==> c.0 == "Inbox"@
            &&& !study && !work && !health && !finance && !idea && !life && tags.len() > 0
                && tags[0] != "未分类"@ ==> c.1 == "fallback_tag_unmapped"@
            &&& !study && !work && !health && !finance && !idea && !life && (tags.len() == 0
                || tags[0] == "未分类"@) ==> c.1 == "fallback_default"@
        }),
{
}

fn keywords(list: &[&str]) -> (r: Vec<Vec<char>>)
    ensures
        views(r@) == list@.map_values(|s: &str| s@),
{
    let mut r: Vec<Vec<char>> = Vec::new();
    let mut i: usize = 0;
    while i < list.len()
        invariant
            i <= list@.len(),
            views(r@) == list@.take(i as int).map_values(|s: &str| s@),
        decreases list.len() - i,
    {
        push_lit(&mut r, list[i]);
        proof {
            assert(list@.take(i + 1).map_values(|s: &str| s@) =~= list@.take(i as int).map_values(
                |s: &str| s@,
            ).push(list@[i as int]@));
        }
        i = i + 1;
    }
    proof {
        assert(list@.take(list@.len() as int) =~= list@);
    }
    r
}

pub fn infer_final_category(text: &str, tags: &Vec<String>) -> (r: (String, String))
    ensures
        (r.0@, r.1@) == final_category(text@, string_views(tags@)),
{
    let low = lowercase_chars(&chars_of(text));
    let study = keywords(&["学习", "读书", "课程", "知识", "rust", "tauri"]);
    let work = keywords(&["工作", "效率", "notion", "会议", "项目"]);
    let health = keywords(&["健康", "运动", "睡眠", "减脂"]);
    let finance = keywords(&["理财", "基金", "股票", "预算", "财务"]);
    let idea = keywords(&["灵感", "创意", "想法"]);
    let life = keywords(&["生活", "家居", "旅行", "美食"]);
    proof {
        assert(views(study@) =~= kw_study());
        assert(views(work@) =~= kw_work());
        assert(views(health@) =~= kw_health());
        assert(views(finance@) =~= kw_finance());
        assert(views(idea@) =~= kw_idea());
        assert(views(life@) =~= kw_life());
    }
    let (cat, reason) = if contains_any_exec(&low, &study) {
        ("学习", "keyword_match")
    } else if contains_any_exec(&low, &work) {
        ("工作", "keyword_match")
    } else if contains_any_exec(&low, &health) {
        ("健康", "keyword_match")
    } else if contains_any_exec(&low, &finance) {
        ("财务", "keyword_match")
    } else if contains_any_exec(&low, &idea) {
        ("灵感", "keyword_match")
    } else if contains_any_exec(&low, &life) {
        ("生活", "keyword_match")
    } else if tags.len() > 0 && !str_eq(tags[0].as_str(), "未分类") {
        proof {
            assert(string_views(tags@)[0] == tags@[0]@);
        }
        ("Inbox", "fallback_tag_unmapped")
    } else {
        proof {
            if tags.len() > 0 {
                assert(string_views(tags@)[0] == tags@[0]@);
            }
        }
        ("Inbox", "fallback_default")
    };
    (crate::text::str_to_string(cat), crate::text::str_to_string(reason))
}

/// The rule-based analysis of a text.
#[derive(Debug, Clone)]
pub struct TextAnalysis {
    pub labels: Vec<String>,
    pub summary: String,
    pub key_points: Vec<String>,
    pub tags: Vec<String>,
    pub final_category: String,
    pub route_reason: String,
}

/// Labels are the normalised tags of the inferred labels; the summary has 140
/// characters at most; there are at most three key points; the category
/// follows the tags.
pub fn analyze_text(text: &str) -> (r: TextAnalysis)
    ensures
        string_views(r.tags@) == normalized_tags(inferred_labels(text@)),
        string_views(r.labels@) == string_views(r.tags@),
        r.summary@ == summary_of(text@, 140),
        string_views(r.key_points@) == key_points_of(text@, 3),
        (r.final_category@, r.route_reason@) == final_category(text@, string_views(r.tags@)),
{
    let labels = infer_labels(text);
    let tags = normalize_tags(&labels);
    let summary = summarize(text, 140);
    let key_points = extract_key_points(text, 3);
    let (final_category, route_reason) = infer_final_category(text, &tags);
    let labels_out = strings_of(&chars_list(&tags));
    TextAnalysis {
        labels: labels_out,
        summary,
        key_points,
        tags,
        final_category,
        route_reason,
    }
}

// ── Gate buckets ────────────────────────────────────────────────────────────

/// A gate bucket as the client sees it.
#[derive(Debug, Clone, Copy, PartialEq, Eq, Structural)]
pub enum GateBucketDto {
    Direct,
    Review,
    Exception,
}

impl From<GateBucket> for GateBucketDto {
    fn from(value: GateBucket) -> (r: Self) {
        match value {
            GateBucket::Direct => GateBucketDto::Direct,
            GateBucket::Review => GateBucketDto::Review,
            GateBucket::Exception => GateBucketDto::Exception,
        }
    }
}

impl vstd::std_specs::convert::FromSpecImpl<GateBucket> for GateBucketDto {
    open spec fn obeys_from_spec() -> bool {
        true
    }

    open spec fn from_spec(v: GateBucket) -> Self {
        match v {
            GateBucket::Direct => GateBucketDto::Direct,
            GateBucket::Review => GateBucketDto::Review,
            GateBucket::Exception => GateBucketDto::Exception,
        }
    }
}

/// The bucket's name: `direct`, `review` or `exception`.
pub open spec fn gate_name(g: GateBucketDto) -> Seq<char> {
    match g {
        GateBucketDto::Direct => "direct"@,
        GateBucketDto::Review => "review"@,
        GateBucketDto::Exception => "exception"@,
    }
}

pub fn gate_label(g: GateBucketDto) -> (r: &'static str)
    ensures
        r@ == gate_name(g),
{
    match g {
        GateBucketDto::Direct => "direct",
        GateBucketDto::Review => "review",
        GateBucketDto::Exception => "exception",
    }
}

} // verus!
